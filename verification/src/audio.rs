use vstd::prelude::*;
use crate::constants;

verus! {

/// Why a stream could not be read, as the decoder reports it.
#[derive(Clone, Copy, Debug, PartialEq, Eq, Structural)]
pub enum AudioError {
    /// An audio packet could not be decoded.
    BadAudio,
    /// One of the three headers could not be decoded.
    BadHeader,
    /// The container around the packets is damaged or cut short.
    BadContainer,
}

/// What one read of the decoder gave.
#[derive(Debug, PartialEq, Eq)]
pub enum Read {
    /// The next packet, as interleaved stereo samples.
    Packet(Vec<i16>),
    /// The stream has ended.
    End,
    /// The read failed.
    Failed(AudioError),
}

/// What is to be done after a read.
#[derive(Clone, Copy, Debug, PartialEq, Eq, Structural)]
pub enum Next {
    /// Read on.
    More,
    /// The track is complete.
    Done,
    /// Give up: the stream is damaged.
    Fail(AudioError),
}

/// A sample at playback volume: the decoded amplitude over
/// `VOLUME_DIVISOR`, rounded towards zero.
pub open spec fn spec_scale(sample: i16) -> i16 {
    if sample >= 0 {
        (sample / constants::VOLUME_DIVISOR) as i16
    } else {
        (-((-sample) / (constants::VOLUME_DIVISOR as int))) as i16
    }
}

/// A packet at playback volume.
pub open spec fn spec_scale_packet(packet: Seq<i16>) -> Seq<i16> {
    Seq::new(packet.len(), |i: int| spec_scale(packet[i]))
}

/// The packets of `decoded`, each at playback volume.
pub open spec fn spec_scale_all(decoded: Seq<Seq<i16>>) -> Seq<Seq<i16>> {
    Seq::new(decoded.len(), |i: int| spec_scale_packet(decoded[i]))
}

/// The left channel of a packet: the first sample of each whole stereo
/// frame.
pub open spec fn spec_left(packet: Seq<i16>) -> Seq<i16> {
    Seq::new((packet.len() / 2) as nat, |j: int| packet[2 * j])
}

/// The trace the scope draws: the left channel of every packet, in order.
pub open spec fn spec_trace(packets: Seq<Seq<i16>>) -> Seq<i16>
    decreases packets.len(),
{
    if packets.len() == 0 {
        Seq::empty()
    } else {
        spec_trace(packets.drop_last()) + spec_left(packets.last())
    }
}

/// The samples of all packets, one packet after the other.
pub open spec fn spec_joined(packets: Seq<Seq<i16>>) -> Seq<i16>
    decreases packets.len(),
{
    if packets.len() == 0 {
        Seq::empty()
    } else {
        spec_joined(packets.drop_last()) + packets.last()
    }
}

/// The track made of the decoded packets of a stream.
pub open spec fn spec_track(sample_rate: u32, decoded: Seq<Seq<i16>>) -> TrackView {
    TrackView {
        sample_rate,
        packets: spec_scale_all(decoded),
        samples: spec_trace(spec_scale_all(decoded)),
    }
}

/// What a run of reads amounts to: the packets read before the stream ended,
/// or the error of the first read that failed.  Nothing after the end or the
/// failure counts, and a run that stops short of either ends where it stops.
pub open spec fn spec_outcome(reads: Seq<Read>) -> Result<Seq<Seq<i16>>, AudioError>
    decreases reads.len(),
{
    if reads.len() == 0 {
        Ok(Seq::empty())
    } else {
        match reads[0] {
            Read::Packet(packet) => spec_behind(seq![packet@], spec_outcome(reads.drop_first())),
            Read::End => Ok(Seq::empty()),
            Read::Failed(error) => Err(error),
        }
    }
}

/// The outcome of a run that has read the packets `done` and then comes to
/// `rest`.
pub open spec fn spec_behind(
    done: Seq<Seq<i16>>,
    rest: Result<Seq<Seq<i16>>, AudioError>,
) -> Result<Seq<Seq<i16>>, AudioError> {
    match rest {
        Ok(packets) => Ok(done + packets),
        Err(error) => Err(error),
    }
}

/// Brings a decoded sample to playback volume.
pub fn scale_sample(sample: i16) -> (scaled: i16)
    ensures
        scaled == spec_scale(sample),
        -655 <= scaled <= 655,
{
    if sample >= 0 {
        sample / constants::VOLUME_DIVISOR
    } else {
        let magnitude: i32 = -(sample as i32);
        (-(magnitude / (constants::VOLUME_DIVISOR as i32))) as i16
    }
}

/// Brings a decoded packet to playback volume.
pub fn scale_packet(packet: &Vec<i16>) -> (scaled: Vec<i16>)
    ensures
        scaled@ == spec_scale_packet(packet@),
{
    let mut scaled: Vec<i16> = Vec::new();
    let mut i: usize = 0;
    while i < packet.len()
        invariant
            i <= packet.len(),
            scaled@.len() == i,
            forall|k: int| 0 <= k < i ==> scaled@[k] == spec_scale(packet@[k]),
        decreases packet.len() - i,
    {
        scaled.push(scale_sample(packet[i]));
        i += 1;
    }
    assert(scaled@ =~= spec_scale_packet(packet@));
    scaled
}

/// A decoded track: what is played and what the scope draws of it.
#[derive(Debug, PartialEq, Eq)]
pub struct Track {
    /// Samples per second and channel.
    pub sample_rate: u32,
    /// The packets to play, interleaved, at playback volume.
    pub packets: Vec<Vec<i16>>,
    /// The trace the scope draws: the left channel, at playback volume.
    pub samples: Vec<i16>,
}

/// What a `Track` holds, as plain values.
pub struct TrackView {
    pub sample_rate: u32,
    pub packets: Seq<Seq<i16>>,
    pub samples: Seq<i16>,
}

impl View for Track {
    type V = TrackView;

    open spec fn view(&self) -> TrackView {
        TrackView {
            sample_rate: self.sample_rate,
            packets: Seq::new(self.packets@.len(), |i: int| self.packets@[i]@),
            samples: self.samples@,
        }
    }
}

impl TrackView {
    /// The trace is the left channel of the packets, and no sample is louder
    /// than playback volume allows.
    pub open spec fn wf(self) -> bool {
        &&& self.samples == spec_trace(self.packets)
        &&& forall|i: int, k: int|
            0 <= i < self.packets.len() && 0 <= k < self.packets[i].len() ==> -655
                <= #[trigger] self.packets[i][k] <= 655
    }

    /// The track with one more decoded packet: the packet at playback volume
    /// joins the packets, and its left channel the trace.
    pub open spec fn with_packet(self, decoded: Seq<i16>) -> TrackView {
        TrackView {
            sample_rate: self.sample_rate,
            packets: self.packets.push(spec_scale_packet(decoded)),
            samples: self.samples + spec_left(spec_scale_packet(decoded)),
        }
    }
}

impl Track {
    /// A track without packets.
    pub fn new(sample_rate: u32) -> (track: Track)
        ensures
            track@ == spec_track(sample_rate, Seq::empty()),
    {
        let track = Track { sample_rate, packets: Vec::new(), samples: Vec::new() };
        assert(track@.packets =~= spec_scale_all(Seq::empty()));
        track
    }

    /// Appends a decoded packet: it is brought to playback volume, and its
    /// left channel joins the trace.
    pub fn push_packet(&mut self, decoded: &Vec<i16>)
        ensures
            final(self)@ == old(self)@.with_packet(decoded@),
    {
        let ghost before = self@;
        let scaled = scale_packet(decoded);
        let ghost left = spec_left(scaled@);
        let mut i: usize = 0;
        while scaled.len() - i >= 2
            invariant
                i <= scaled.len(),
                i % 2 == 0,
                left == spec_left(scaled@),
                self.samples@ == before.samples + left.take(i as int / 2),
                self.packets == old(self).packets,
                self.sample_rate == old(self).sample_rate,
            decreases scaled.len() - i,
        {
            self.samples.push(scaled[i]);
            assert(left.take(i as int / 2).push(scaled@[i as int]) =~= left.take(
                i as int / 2 + 1,
            ));
            i += 2;
        }
        assert(left.take(i as int / 2) =~= left);
        self.packets.push(scaled);
        assert(self@.packets =~= before.packets.push(spec_scale_packet(decoded@)));
    }

    /// Takes in what a read gave: a packet joins the track and asks for
    /// more, the end completes the track, and a failure is passed on.
    pub fn on_read(&mut self, read: &Read) -> (next: Next)
        ensures
            match *read {
                Read::Packet(packet) => {
                    &&& next == Next::More
                    &&& final(self)@ == old(self)@.with_packet(packet@)
                },
                Read::End => next == Next::Done && final(self)@ == old(self)@,
                Read::Failed(error) => next == Next::Fail(error) && final(self)@ == old(self)@,
            },
    {
        match read {
            Read::Packet(packet) => {
                self.push_packet(packet);
                Next::More
            },
            Read::End => Next::Done,
            Read::Failed(error) => Next::Fail(*error),
        }
    }
}

/// Makes the track of a stream from its sample rate and what the reads of
/// its packets gave, in order.  A read that failed before the end of the
/// stream is an error, and that error comes back.
pub fn init(sample_rate: u32, reads: &Vec<Read>) -> (made: Result<Track, AudioError>)
    ensures
        match spec_outcome(reads@) {
            Ok(decoded) => made matches Ok(track) && track@ == spec_track(sample_rate, decoded),
            Err(error) => made matches Err(e) && e == error,
        },
        made matches Ok(track) ==> track@.wf(),
{
    let mut track = Track::new(sample_rate);
    let ghost mut done: Seq<Seq<i16>> = Seq::empty();
    let mut i: usize = 0;
    assert(reads@.skip(0) =~= reads@);
    while i < reads.len()
        invariant
            i <= reads.len(),
            track@ == spec_track(sample_rate, done),
            spec_outcome(reads@) == spec_behind(done, spec_outcome(reads@.skip(i as int))),
        decreases reads.len() - i,
    {
        let ghost rest = reads@.skip(i as int);
        assert(rest.drop_first() =~= reads@.skip(i + 1));
        assert(rest[0] == reads@[i as int]);
        match track.on_read(&reads[i]) {
            Next::More => {
                proof {
                    let packet = reads@[i as int]->Packet_0@;
                    lemma_track_grows(sample_rate, done, packet);
                    lemma_behind_after(done, packet, spec_outcome(reads@.skip(i + 1)));
                    done = done.push(packet);
                }
            },
            Next::Done => {
                assert(done + Seq::<Seq<i16>>::empty() =~= done);
                return Ok(track);
            },
            Next::Fail(error) => {
                return Err(error);
            },
        }
        i += 1;
    }
    assert(done + Seq::<Seq<i16>>::empty() =~= done);
    Ok(track)
}

/// Reading one more packet before `rest` is reading it after `done`.
proof fn lemma_behind_after(
    done: Seq<Seq<i16>>,
    packet: Seq<i16>,
    rest: Result<Seq<Seq<i16>>, AudioError>,
)
    ensures
        spec_behind(done, spec_behind(seq![packet], rest)) == spec_behind(done.push(packet), rest),
{
    if let Ok(packets) = rest {
        assert(done + (seq![packet] + packets) =~= done.push(packet) + packets);
    }
}

/// The track of one more packet is the track so far with that packet.
pub proof fn lemma_track_grows(sample_rate: u32, decoded: Seq<Seq<i16>>, packet: Seq<i16>)
    ensures
        spec_track(sample_rate, decoded.push(packet)) == spec_track(
            sample_rate,
            decoded,
        ).with_packet(packet),
{
    let all = decoded.push(packet);
    assert(spec_scale_all(all) =~= spec_scale_all(decoded).push(spec_scale_packet(packet)));
    assert(spec_scale_all(all).drop_last() =~= spec_scale_all(decoded));
}

/// Whatever was decoded, the track made of it is well formed.
pub proof fn lemma_track_wf(sample_rate: u32, decoded: Seq<Seq<i16>>)
    ensures
        spec_track(sample_rate, decoded).wf(),
{
}

/// When every packet holds whole stereo frames, the trace is the left
/// channel of the stream from end to end: it holds every second sample of
/// the packets laid one after the other, at playback volume, none dropped
/// and none repeated.
pub proof fn lemma_trace_is_left_channel(sample_rate: u32, decoded: Seq<Seq<i16>>)
    requires
        forall|i: int| 0 <= i < decoded.len() ==> (#[trigger] decoded[i]).len() % 2 == 0,
    ensures
        2 * spec_track(sample_rate, decoded).samples.len() == spec_joined(decoded).len(),
        forall|j: int|
            0 <= j < spec_track(sample_rate, decoded).samples.len() ==> #[trigger] spec_track(
                sample_rate,
                decoded,
            ).samples[j] == spec_scale(spec_joined(decoded)[2 * j]),
    decreases decoded.len(),
{
    if decoded.len() > 0 {
        let before = decoded.drop_last();
        let last = decoded.last();
        lemma_trace_is_left_channel(sample_rate, before);
        assert(before.push(last) =~= decoded);
        lemma_track_grows(sample_rate, before, last);
        let earlier = spec_track(sample_rate, before).samples;
        let trace = spec_track(sample_rate, decoded).samples;
        assert(trace == earlier + spec_left(spec_scale_packet(last)));
        assert forall|j: int| 0 <= j < trace.len() implies trace[j] == spec_scale(
            spec_joined(decoded)[2 * j],
        ) by {
            if j >= earlier.len() {
                let k = j - earlier.len();
                assert(trace[j] == spec_left(spec_scale_packet(last))[k]);
                assert(spec_joined(decoded)[2 * j] == last[2 * k]);
            } else {
                assert(spec_joined(decoded)[2 * j] == spec_joined(before)[2 * j]);
            }
        }
    }
}

} // verus!

use std::io::Cursor;

use lewton::inside_ogg::OggStreamReader;
use lewton::VorbisError;
use revision2020::audio::{init, scale_packet, scale_sample, AudioError, Next, Read, Track};

#[test]
fn volume_is_a_fiftieth_rounded_towards_zero() {
    assert_eq!(scale_sample(0), 0);
    assert_eq!(scale_sample(49), 0);
    assert_eq!(scale_sample(50), 1);
    assert_eq!(scale_sample(99), 1);
    assert_eq!(scale_sample(100), 2);
    assert_eq!(scale_sample(-49), 0);
    assert_eq!(scale_sample(-50), -1);
    assert_eq!(scale_sample(-99), -1);
    assert_eq!(scale_sample(i16::MAX), 655);
    assert_eq!(scale_sample(i16::MIN), -655);
}

#[test]
fn volume_matches_the_float_product() {
    for s in i16::MIN..=i16::MAX {
        assert_eq!(scale_sample(s), (s as f32 * 0.02) as i16);
    }
}

#[test]
fn packet_is_scaled_sample_by_sample() {
    assert_eq!(scale_packet(&vec![]), Vec::<i16>::new());
    assert_eq!(scale_packet(&vec![500, -500, 20, 32767]), vec![10, -10, 0, 655]);
}

#[test]
fn trace_holds_the_left_sample_of_every_frame() {
    let mut track = Track::new(44_100);
    assert_eq!(track.sample_rate, 44_100);
    assert!(track.packets.is_empty());
    assert!(track.samples.is_empty());

    track.push_packet(&vec![1000, 2000, 3000, 4000]);
    assert_eq!(track.samples, vec![20, 60]);
    track.push_packet(&vec![]);
    assert_eq!(track.samples, vec![20, 60]);
    track.push_packet(&vec![-700, 50]);
    assert_eq!(track.samples, vec![20, 60, -14]);
    track.push_packet(&vec![100, 0, 200, 0, 300, 0]);
    assert_eq!(track.samples, vec![20, 60, -14, 2, 4, 6]);

    assert_eq!(track.sample_rate, 44_100);
    assert_eq!(
        track.packets,
        vec![vec![20, 40, 60, 80], vec![], vec![-14, 1], vec![2, 0, 4, 0, 6, 0]]
    );
}

#[test]
fn sample_without_its_frame_is_played_but_not_drawn() {
    let mut track = Track::new(8000);
    track.push_packet(&vec![-700]);
    assert_eq!(track.packets, vec![vec![-14]]);
    assert!(track.samples.is_empty());
    track.push_packet(&vec![500, 0, 900]);
    assert_eq!(track.packets, vec![vec![-14], vec![10, 0, 18]]);
    assert_eq!(track.samples, vec![10]);
}

#[test]
fn trace_is_every_second_sample_of_the_stream() {
    let packets: Vec<Vec<i16>> = vec![
        (0..8).map(|i| (i * 1000) as i16).collect(),
        vec![],
        (0..2).map(|i| (-5000 - i * 50) as i16).collect(),
        (0..64).map(|i| (i * 311 - 9000) as i16).collect(),
    ];
    let stream: Vec<i16> = packets.concat();
    let reads: Vec<Read> = packets.into_iter().map(Read::Packet).collect();
    let track = init(48_000, &reads).unwrap();
    assert_eq!(track.samples.len() * 2, stream.len());
    for (j, &s) in track.samples.iter().enumerate() {
        assert_eq!(s, scale_sample(stream[2 * j]));
    }
}

#[test]
fn reads_up_to_the_end_make_the_track() {
    let reads = vec![
        Read::Packet(vec![]),
        Read::Packet(vec![500, 600, 700, 800]),
        Read::Packet(vec![-500, -600]),
        Read::End,
    ];
    let track = init(22_050, &reads).unwrap();
    assert_eq!(track.sample_rate, 22_050);
    assert_eq!(track.packets, vec![vec![], vec![10, 12, 14, 16], vec![-10, -12]]);
    assert_eq!(track.samples, vec![10, 14, -10]);
}

#[test]
fn nothing_after_the_end_counts() {
    let reads = vec![
        Read::Packet(vec![50, 50]),
        Read::End,
        Read::Packet(vec![100, 100]),
        Read::Failed(AudioError::BadAudio),
    ];
    let track = init(8000, &reads).unwrap();
    assert_eq!(track.packets, vec![vec![1, 1]]);
    assert_eq!(track.samples, vec![1]);
}

#[test]
fn failed_read_is_an_error_and_names_its_kind() {
    for kind in [AudioError::BadAudio, AudioError::BadHeader, AudioError::BadContainer] {
        let reads = vec![Read::Packet(vec![50, 50]), Read::Failed(kind), Read::End];
        assert_eq!(init(8000, &reads), Err(kind));
        assert_eq!(init(8000, &vec![Read::Failed(kind)]), Err(kind));
    }
    let reads = vec![
        Read::Failed(AudioError::BadContainer),
        Read::Failed(AudioError::BadAudio),
    ];
    assert_eq!(init(8000, &reads), Err(AudioError::BadContainer));
}

#[test]
fn run_of_reads_that_stops_short_ends_there() {
    let empty = init(8000, &Vec::new()).unwrap();
    assert_eq!(empty, Track { sample_rate: 8000, packets: vec![], samples: vec![] });
    let track = init(8000, &vec![Read::Packet(vec![150, 0])]).unwrap();
    assert_eq!(track, Track { sample_rate: 8000, packets: vec![vec![3, 0]], samples: vec![3] });
}

#[test]
fn each_read_says_what_comes_next() {
    let mut track = Track::new(8000);
    assert_eq!(track.on_read(&Read::Packet(vec![250, -250])), Next::More);
    assert_eq!(track.samples, vec![5]);
    assert_eq!(track.on_read(&Read::Failed(AudioError::BadAudio)), Next::Fail(AudioError::BadAudio));
    assert_eq!(track.on_read(&Read::End), Next::Done);
    assert_eq!(track, Track { sample_rate: 8000, packets: vec![vec![5, -5]], samples: vec![5] });
}

/// Packs values into bytes, least significant bit first.
struct Bits {
    bytes: Vec<u8>,
    used: u32,
}

impl Bits {
    fn new() -> Bits {
        Bits { bytes: Vec::new(), used: 0 }
    }

    fn put(&mut self, value: u32, width: u32) {
        for i in 0..width {
            if self.used % 8 == 0 {
                self.bytes.push(0);
            }
            let bit = ((value >> i) & 1) as u8;
            let last = self.bytes.len() - 1;
            self.bytes[last] |= bit << (self.used % 8);
            self.used += 1;
        }
    }

    fn text(&mut self, text: &[u8]) {
        for &b in text {
            self.put(b as u32, 8);
        }
    }
}

fn page_checksum(page: &[u8]) -> u32 {
    let mut crc: u32 = 0;
    for &byte in page {
        crc ^= (byte as u32) << 24;
        for _ in 0..8 {
            crc = if crc & 0x8000_0000 != 0 { (crc << 1) ^ 0x04c1_1db7 } else { crc << 1 };
        }
    }
    crc
}

/// One Ogg page holding whole packets, each shorter than 255 bytes.
fn page(flags: u8, granule: u64, sequence: u32, packets: &[Vec<u8>]) -> Vec<u8> {
    let mut out = Vec::new();
    out.extend_from_slice(b"OggS");
    out.push(0);
    out.push(flags);
    out.extend_from_slice(&granule.to_le_bytes());
    out.extend_from_slice(&0x5eed_u32.to_le_bytes());
    out.extend_from_slice(&sequence.to_le_bytes());
    out.extend_from_slice(&[0, 0, 0, 0]);
    out.push(packets.len() as u8);
    for p in packets {
        assert!(p.len() < 255);
        out.push(p.len() as u8);
    }
    for p in packets {
        out.extend_from_slice(p);
    }
    let crc = page_checksum(&out);
    out[22..26].copy_from_slice(&crc.to_le_bytes());
    out
}

fn identification(channels: u8, sample_rate: u32) -> Vec<u8> {
    let mut b = Bits::new();
    b.put(1, 8);
    b.text(b"vorbis");
    b.put(0, 32);
    b.put(channels as u32, 8);
    b.put(sample_rate, 32);
    b.put(0, 32);
    b.put(0, 32);
    b.put(0, 32);
    b.put(6, 4); // short blocks of 64 samples
    b.put(6, 4); // long blocks of 64 samples
    b.put(1, 8);
    b.bytes
}

fn comments() -> Vec<u8> {
    let mut b = Bits::new();
    b.put(3, 8);
    b.text(b"vorbis");
    b.put(0, 32); // no vendor
    b.put(0, 32); // no comments
    b.put(1, 8);
    b.bytes
}

/// The smallest setup: one codebook of two one-bit codes, one floor of type
/// one without partitions, one empty residue, one mapping, one mode.
fn setup() -> Vec<u8> {
    let mut b = Bits::new();
    b.put(5, 8);
    b.text(b"vorbis");
    // codebooks
    b.put(0, 8);
    b.put(0x564342, 24);
    b.put(1, 16);
    b.put(2, 24);
    b.put(0, 1);
    b.put(0, 1);
    b.put(0, 5);
    b.put(0, 5);
    b.put(0, 4);
    // time domain transforms
    b.put(0, 6);
    b.put(0, 16);
    // floors
    b.put(0, 6);
    b.put(1, 16);
    b.put(0, 5);
    b.put(0, 2);
    b.put(5, 4);
    // residues
    b.put(0, 6);
    b.put(0, 16);
    b.put(0, 24);
    b.put(0, 24);
    b.put(0, 24);
    b.put(0, 6);
    b.put(0, 8);
    b.put(0, 3);
    b.put(0, 1);
    // mappings
    b.put(0, 6);
    b.put(0, 16);
    b.put(0, 1);
    b.put(0, 1);
    b.put(0, 2);
    b.put(0, 8);
    b.put(0, 8);
    b.put(0, 8);
    // modes
    b.put(0, 6);
    b.put(0, 1);
    b.put(0, 16);
    b.put(0, 16);
    b.put(0, 8);
    // framing
    b.put(1, 1);
    b.bytes
}

/// A stream of `packets` silent audio packets.
fn silent_stream(channels: u8, sample_rate: u32, packets: usize) -> Vec<u8> {
    let mut out = page(2, 0, 0, &[identification(channels, sample_rate)]);
    out.extend(page(0, 0, 1, &[comments(), setup()]));
    let audio: Vec<Vec<u8>> = (0..packets).map(|_| vec![0u8]).collect();
    out.extend(page(0, 32 * packets as u64, 2, &audio));
    out
}

fn kind(error: &VorbisError) -> AudioError {
    match error {
        VorbisError::BadAudio(_) => AudioError::BadAudio,
        VorbisError::BadHeader(_) => AudioError::BadHeader,
        VorbisError::OggError(_) => AudioError::BadContainer,
    }
}

/// Drives the decoder over a stream in memory as a program would over a
/// file: every read is handed to the track, which says what comes next.
fn decode(bytes: Vec<u8>) -> Result<Track, AudioError> {
    let mut source = match OggStreamReader::new(Cursor::new(bytes)) {
        Ok(source) => source,
        Err(error) => return Err(kind(&error)),
    };
    let mut track = Track::new(source.ident_hdr.audio_sample_rate);
    loop {
        let read = match source.read_dec_packet_itl() {
            Ok(Some(samples)) => Read::Packet(samples),
            Ok(None) => Read::End,
            Err(error) => Read::Failed(kind(&error)),
        };
        match track.on_read(&read) {
            Next::More => {}
            Next::Done => return Ok(track),
            Next::Fail(error) => return Err(error),
        }
    }
}

#[test]
fn silent_stream_is_taken_in_packet_by_packet() {
    let track = decode(silent_stream(2, 22_050, 4)).unwrap();
    assert_eq!(track.sample_rate, 22_050);
    // the first packet only primes the decoder; each later one gives half a
    // block for each of the two channels
    assert_eq!(track.packets.len(), 4);
    assert!(track.packets[0].is_empty());
    for p in &track.packets[1..] {
        assert_eq!(p, &vec![0i16; 64]);
    }
    assert_eq!(track.samples, vec![0i16; 96]);
}

#[test]
fn stream_without_audio_is_an_empty_track() {
    let track = decode(silent_stream(2, 44_100, 0)).unwrap();
    assert_eq!(track.sample_rate, 44_100);
    assert!(track.packets.is_empty());
    assert!(track.samples.is_empty());
}

#[test]
fn packet_that_cannot_be_decoded_is_an_error() {
    let mut bytes = page(2, 0, 0, &[identification(2, 22_050)]);
    bytes.extend(page(0, 0, 1, &[comments(), setup()]));
    // the third packet has its first bit set, as only headers do
    bytes.extend(page(0, 64, 2, &[vec![0u8], vec![0u8], vec![1u8], vec![0u8]]));
    assert_eq!(decode(bytes), Err(AudioError::BadAudio));
}

#[test]
fn damaged_page_is_an_error() {
    let mut bytes = silent_stream(2, 22_050, 3);
    let last = bytes.len() - 1;
    bytes[last] ^= 0x40;
    assert_eq!(decode(bytes), Err(AudioError::BadContainer));
}

#[test]
fn bytes_that_are_no_stream_are_refused() {
    assert_eq!(decode(Vec::new()), Err(AudioError::BadContainer));
    assert_eq!(decode(vec![0u8; 64]), Err(AudioError::BadContainer));
    let mut bytes = page(2, 0, 0, &[identification(2, 22_050)]);
    assert_eq!(decode(bytes.clone()), Err(AudioError::BadContainer));
    bytes.extend(page(0, 0, 1, &[comments(), vec![5, b'v', b'o', b'r', b'b', b'i', b's']]));
    assert_eq!(decode(bytes), Err(AudioError::BadHeader));
    // a sample rate of zero
    assert_eq!(decode(page(2, 0, 0, &[identification(2, 0)])), Err(AudioError::BadHeader));
}

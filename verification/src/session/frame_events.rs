//! The frame channel: frames on their way to the window that shows them.
//!
//! At most one frame is on its way and at most one waits behind it, the newest; a frame goes
//! out only when the one before it has been acknowledged. A frame is sent as `PBFR`, its
//! sequence number in eight bytes, lowest first, and its pixels.
use vstd::prelude::*;

use crate::integrations::frame_bridge::{FrameContent, FrameSink, RgbaFrame, SinkCall};
use crate::json;
use crate::json::{Json, JsonValue};
use crate::text;

verus! {

/// The number of bytes before the pixels.
pub const FRAME_HEADER_BYTES: usize = 12;

/// A frame that is ready to go out.
#[derive(Debug)]
pub struct PendingFrame {
    pub sequence: u64,
    pub bytes: Vec<u8>,
}

/// What is on its way and what waits.
pub struct ChannelState {
    pub next_sequence: u64,
    pub in_flight: Option<u64>,
    /// The newest frame, while another one is on its way. It is not packed before it goes
    /// out, since it may be replaced before that.
    pub pending: Option<RgbaFrame>,
}

/// The eight bytes of a number, lowest first.
pub open spec fn le_bytes(n: u64) -> Seq<u8> {
    Seq::new(8, |i: int| ((n as int / vstd::arithmetic::power::pow(256, i as nat)) % 256) as u8)
}

/// A frame as it is sent.
pub open spec fn packet_bytes(sequence: u64, rgba: Seq<u8>) -> Seq<u8> {
    seq![0x50u8, 0x42, 0x46, 0x52] + le_bytes(sequence) + rgba
}

/// The number after a sequence number; zero is left out.
pub open spec fn sequence_after(n: u64) -> u64 {
    if n == u64::MAX {
        1
    } else {
        (n + 1) as u64
    }
}

/// The contents of what is on its way and what waits.
pub struct ChannelModel {
    pub next_sequence: u64,
    pub in_flight: Option<u64>,
    pub pending: Option<FrameContent>,
}

impl View for ChannelState {
    type V = ChannelModel;

    open spec fn view(&self) -> ChannelModel {
        ChannelModel {
            next_sequence: self.next_sequence,
            in_flight: self.in_flight,
            pending: match self.pending {
                Some(f) => Some(f@),
                None => None,
            },
        }
    }
}

/// What goes out to the window.
#[derive(Debug)]
pub enum ChannelMessage {
    Frame(PendingFrame),
    /// The size of the frames, as JSON.
    Size(String),
}

/// The content of what goes out.
pub enum MessageContent {
    Frame { sequence: u64, bytes: Seq<u8> },
    Size(Seq<char>),
}

impl View for ChannelMessage {
    type V = MessageContent;

    open spec fn view(&self) -> MessageContent {
        match self {
            ChannelMessage::Frame(p) => MessageContent::Frame {
                sequence: p.sequence,
                bytes: p.bytes@,
            },
            ChannelMessage::Size(s) => MessageContent::Size(s@),
        }
    }
}

/// The contents of a list of messages.
pub open spec fn messages(v: Seq<ChannelMessage>) -> Seq<MessageContent> {
    Seq::new(v.len(), |i: int| v[i]@)
}

/// A sink that sends frames through a channel. What has to go out stands in `outbox`; its
/// owner sends it, and reports when the channel refuses a frame.
pub struct ChannelSink {
    pub state: ChannelState,
    pub outbox: Vec<ChannelMessage>,
    pub log: Ghost<Seq<SinkCall>>,
}

/// The size message: `{"height":h,"width":w}`.
pub open spec fn size_json(width: u32, height: u32) -> Json {
    Json::Object(
        seq![("height"@, Json::Integer(height as int)), ("width"@, Json::Integer(width as int))],
    )
}

fn push_number(bytes: &mut Vec<u8>, n: u64)
    ensures
        final(bytes)@ == old(bytes)@ + le_bytes(n),
{
    let ghost start = bytes@;
    let mut rest: u64 = n;
    let mut i: usize = 0;
    proof {
        vstd::arithmetic::power::lemma_pow0(256);
    }
    while i < 8
        invariant
            i <= 8,
            vstd::arithmetic::power::pow(256, i as nat) > 0,
            rest == n as int / vstd::arithmetic::power::pow(256, i as nat),
            bytes@ =~= start + le_bytes(n).take(i as int),
        decreases 8 - i,
    {
        bytes.push((rest % 256) as u8);
        proof {
            let p = vstd::arithmetic::power::pow(256, i as nat);
            vstd::arithmetic::div_mod::lemma_div_denominator(n as int, p, 256);
            vstd::arithmetic::power::lemma_pow_adds(256, i as nat, 1);
            vstd::arithmetic::power::lemma_pow1(256);
            vstd::arithmetic::power::lemma_pow_positive(256, (i + 1) as nat);
        }
        rest = rest / 256;
        i = i + 1;
    }
    assert(le_bytes(n).take(8) =~= le_bytes(n));
}

impl ChannelSink {
    pub fn new() -> (r: Self)
        ensures
            r.state@ == (ChannelModel { next_sequence: 1, in_flight: None, pending: None }),
            r.outbox@.len() == 0,
            r.told() == Seq::<SinkCall>::empty(),
    {
        ChannelSink {
            state: ChannelState { next_sequence: 1, in_flight: None, pending: None },
            outbox: Vec::new(),
            log: Ghost(Seq::empty()),
        }
    }

    /// Packs a frame under the next sequence number.
    pub fn make_packet(state: &mut ChannelState, frame: &RgbaFrame) -> (r: PendingFrame)
        ensures
            r.sequence == old(state).next_sequence,
            r.bytes@ == packet_bytes(r.sequence, frame@.rgba),
            final(state)@ == (ChannelModel {
                next_sequence: sequence_after(old(state).next_sequence),
                ..old(state)@
            }),
    {
        let sequence = state.next_sequence;
        state.next_sequence = if sequence == u64::MAX {
            1
        } else {
            sequence + 1
        };
        let mut bytes: Vec<u8> = Vec::new();
        bytes.push(0x50);
        bytes.push(0x42);
        bytes.push(0x46);
        bytes.push(0x52);
        push_number(&mut bytes, sequence);
        let mut i: usize = 0;
        let pixels = &frame.rgba;
        let ghost head = bytes@;
        while i < pixels.len()
            invariant
                i <= pixels@.len(),
                *pixels == frame.rgba,
                bytes@ =~= head + pixels@.take(i as int),
            decreases pixels@.len() - i,
        {
            bytes.push(pixels[i]);
            i = i + 1;
        }
        assert(bytes@ =~= packet_bytes(sequence, frame@.rgba));
        PendingFrame { sequence, bytes }
    }

    fn send(&mut self, frame: &RgbaFrame)
        ensures
            final(self).state@ == (ChannelModel {
                next_sequence: sequence_after(old(self).state.next_sequence),
                in_flight: Some(old(self).state.next_sequence),
                ..old(self).state@
            }),
            messages(final(self).outbox@) == messages(old(self).outbox@).push(
                MessageContent::Frame {
                    sequence: old(self).state.next_sequence,
                    bytes: packet_bytes(old(self).state.next_sequence, frame@.rgba),
                },
            ),
            final(self).log == old(self).log,
    {
        let packet = ChannelSink::make_packet(&mut self.state, frame);
        self.state.in_flight = Some(packet.sequence);
        let ghost before = self.outbox@;
        let m = ChannelMessage::Frame(packet);
        self.outbox.push(m);
        assert(messages(self.outbox@) =~= messages(before).push(m@));
    }

    /// The channel refused a frame: nothing is on its way any more, and nothing waits.
    pub fn refused(&mut self, sequence: u64)
        ensures
            final(self).state@ == without_frame(old(self).state@, sequence),
            final(self).outbox == old(self).outbox,
            final(self).told() == old(self).told(),
    {
        match self.state.in_flight {
            Some(s) => {
                if s == sequence {
                    self.state.in_flight = None;
                    self.state.pending = None;
                }
            },
            None => {},
        }
    }
}

/// The channel after it refused a frame; one that is not on its way changes nothing.
pub open spec fn without_frame(m: ChannelModel, sequence: u64) -> ChannelModel {
    if m.in_flight == Some(sequence) {
        ChannelModel { in_flight: None, pending: None, ..m }
    } else {
        m
    }
}

/// The channel after it has been given a frame.
pub open spec fn pushed(m: ChannelModel, frame: FrameContent) -> ChannelModel {
    if m.in_flight is Some {
        ChannelModel { pending: Some(frame), ..m }
    } else {
        ChannelModel {
            next_sequence: sequence_after(m.next_sequence),
            in_flight: Some(m.next_sequence),
            ..m
        }
    }
}

/// The channel after an acknowledgement.
pub open spec fn acknowledged(m: ChannelModel, sequence: u64) -> ChannelModel {
    if m.in_flight != Some(sequence) {
        m
    } else if m.pending is Some {
        ChannelModel {
            next_sequence: sequence_after(m.next_sequence),
            in_flight: Some(m.next_sequence),
            pending: None,
        }
    } else {
        ChannelModel { in_flight: None, ..m }
    }
}

impl FrameSink for ChannelSink {
    open spec fn told(&self) -> Seq<SinkCall> {
        self.log@
    }

    /// Sends a frame where none is on its way; else it waits, in place of the one that waited.
    fn push(&mut self, frame: &RgbaFrame)
        ensures
            final(self).state@ == pushed(old(self).state@, frame@),
            messages(final(self).outbox@) == (if old(self).state.in_flight is Some {
                messages(old(self).outbox@)
            } else {
                messages(old(self).outbox@).push(
                    MessageContent::Frame {
                        sequence: old(self).state.next_sequence,
                        bytes: packet_bytes(old(self).state.next_sequence, frame@.rgba),
                    },
                )
            }),
    {
        if self.state.in_flight.is_some() {
            self.state.pending = Some(frame.clone());
        } else {
            self.send(frame);
        }
        self.log = Ghost(self.log@.push(SinkCall::Frame(frame@)));
    }

    fn on_size(&mut self, width: u32, height: u32)
        ensures
            final(self).state == old(self).state,
            messages(final(self).outbox@) == messages(old(self).outbox@).push(
                MessageContent::Size(json::text_of_json(size_json(width, height))),
            ),
            json::json_of_text(json::text_of_json(size_json(width, height))) == Some(
                size_json(width, height),
            ),
    {
        let mut members: Vec<(String, JsonValue)> = Vec::new();
        members.push((text::own("height"), JsonValue::Integer(height as i128)));
        members.push((text::own("width"), JsonValue::Integer(width as i128)));
        let v = JsonValue::Object(members);
        proof {
            reveal_strlit("height");
            reveal_strlit("width");
            reveal_with_fuel(json::writable, 3);
            reveal_with_fuel(json::model, 3);
            assert(v@->Object_0 =~= size_json(width, height)->Object_0);
        }
        let m = ChannelMessage::Size(json::write_json(&v));
        let ghost before = self.outbox@;
        self.outbox.push(m);
        assert(messages(self.outbox@) =~= messages(before).push(m@));
        self.log = Ghost(self.log@.push(SinkCall::Size { width, height }));
    }

    /// Takes an acknowledgement: the frame that waits goes out. One for another frame than
    /// the one on its way changes nothing.
    fn acknowledge(&mut self, sequence: u64)
        ensures
            final(self).state@ == acknowledged(old(self).state@, sequence),
            messages(final(self).outbox@) == (match old(self).state@.pending {
                Some(f) if old(self).state.in_flight == Some(sequence) => messages(
                    old(self).outbox@,
                ).push(
                    MessageContent::Frame {
                        sequence: old(self).state.next_sequence,
                        bytes: packet_bytes(old(self).state.next_sequence, f.rgba),
                    },
                ),
                _ => messages(old(self).outbox@),
            }),
    {
        match self.state.in_flight {
            Some(s) => {
                if s == sequence {
                    match self.state.pending.take() {
                        Some(frame) => {
                            self.send(&frame);
                        },
                        None => {
                            self.state.in_flight = None;
                        },
                    }
                }
            },
            None => {},
        }
    }
}

/// A frame waits only while another one is on its way, and no sequence number is zero.
pub open spec fn channel_in_order(m: ChannelModel) -> bool {
    &&& m.pending is Some ==> m.in_flight is Some
    &&& m.next_sequence >= 1
    &&& m.in_flight matches Some(s) ==> s >= 1
}

/// Every operation keeps the channel in order.
pub proof fn channel_stays_in_order(m: ChannelModel, frame: FrameContent, sequence: u64)
    requires
        channel_in_order(m),
    ensures
        channel_in_order(pushed(m, frame)),
        channel_in_order(acknowledged(m, sequence)),
        channel_in_order(without_frame(m, sequence)),
{
}

/// The number that bytes denote, the lowest first.
pub open spec fn le_number(b: Seq<u8>) -> nat
    decreases b.len(),
{
    if b.len() == 0 {
        0
    } else {
        b[0] as nat + 256 * le_number(b.skip(1))
    }
}

proof fn lemma_le_number(n: u64, i: nat)
    requires
        i <= 8,
    ensures
        le_number(le_bytes(n).skip(i as int)) == n as int / vstd::arithmetic::power::pow(256, i),
        vstd::arithmetic::power::pow(256, i) > 0,
    decreases 8 - i,
{
    let p = vstd::arithmetic::power::pow(256, i);
    vstd::arithmetic::power::lemma_pow_positive(256, i);
    if i == 8 {
        reveal_with_fuel(vstd::arithmetic::power::pow, 9);
        assert(le_bytes(n).skip(8).len() == 0);
        assert(p == 0x1_0000_0000_0000_0000);
        vstd::arithmetic::div_mod::lemma_basic_div(n as int, p);
    } else {
        lemma_le_number(n, i + 1);
        vstd::arithmetic::power::lemma_pow_adds(256, i, 1);
        vstd::arithmetic::power::lemma_pow1(256);
        vstd::arithmetic::div_mod::lemma_div_denominator(n as int, p, 256);
        assert(le_bytes(n).skip(i as int).skip(1) =~= le_bytes(n).skip(i as int + 1));
        let q: int = n as int / p;
        vstd::arithmetic::div_mod::lemma_div_pos_is_pos(n as int, p);
        assert(le_bytes(n).skip(i as int)[0] == (q % 256) as u8);
    }
}

/// A frame that is sent reads back: the four letters of the format, the sequence number in the
/// eight bytes behind them, the lowest first, and the pixels behind those, as they are.
pub proof fn packets_read_back(sequence: u64, rgba: Seq<u8>)
    ensures
        ({
            let p = packet_bytes(sequence, rgba);
            &&& p.len() == 12 + rgba.len()
            &&& p[0] as char == 'P' && p[1] as char == 'B' && p[2] as char == 'F' && p[3] as char
                == 'R'
            &&& le_number(p.subrange(4, 12)) == sequence
            &&& p.skip(12) == rgba
        }),
{
    let p = packet_bytes(sequence, rgba);
    lemma_le_number(sequence, 0);
    vstd::arithmetic::power::lemma_pow0(256);
    assert(p.subrange(4, 12) =~= le_bytes(sequence).skip(0));
    assert(p.skip(12) =~= rgba);
}

/// The size message says the width under `width` and the height under `height`.
pub proof fn size_messages_read_back(width: u32, height: u32)
    ensures
        size_json(width, height).get("width"@) == Some(Json::Integer(width as int)),
        size_json(width, height).get("height"@) == Some(Json::Integer(height as int)),
{
    reveal_strlit("height");
    reveal_strlit("width");
    assert("height"@.len() != "width"@.len());
    reveal_with_fuel(json::member_at, 3);
}

/// A channel on which nothing is on its way sends a frame at once, under the next number, and is
/// free again once that frame is acknowledged or refused; numbers go up by one and never become
/// zero. A frame that is refused takes the one that waits with it.
pub proof fn idle_channels_send_at_once(m: ChannelModel, frame: FrameContent, next: FrameContent)
    requires
        channel_in_order(m),
        m.in_flight is None,
    ensures
        ({
            let n = m.next_sequence;
            let sent = pushed(m, frame);
            let free = acknowledged(sent, n);
            &&& sent.in_flight == Some(n) && sent.pending is None
            &&& n < u64::MAX ==> sent.next_sequence == n + 1
            &&& n == u64::MAX ==> sent.next_sequence == 1
            &&& free.in_flight is None && free.pending is None && free.next_sequence
                == sent.next_sequence
            &&& without_frame(sent, n) == free
            &&& without_frame(pushed(sent, next), n) == free
            &&& pushed(sent, next).pending == Some(next) && pushed(sent, next).in_flight == Some(n)
        }),
{
}

/// The newest frame is the one that is shown next: while a frame is on its way, a second push
/// replaces what waits, and the acknowledgement of the first sends the last one.
pub proof fn newest_frame_goes_next(
    m: ChannelModel,
    first: FrameContent,
    second: FrameContent,
    sequence: u64,
)
    requires
        m.in_flight == Some(sequence),
    ensures
        pushed(pushed(m, first), second).pending == Some(second),
        pushed(pushed(m, first), second).in_flight == m.in_flight,
        acknowledged(pushed(pushed(m, first), second), sequence).in_flight == Some(
            m.next_sequence,
        ),
        acknowledged(pushed(pushed(m, first), second), sequence).pending is None,
{
}

/// An acknowledgement of a frame that is not on its way is ignored.
pub proof fn stale_acknowledgement_is_ignored(m: ChannelModel, sequence: u64)
    requires
        m.in_flight != Some(sequence),
    ensures
        acknowledged(m, sequence) == m,
{
}

} // verus!

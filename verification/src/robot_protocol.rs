use vstd::prelude::*;

verus! {

/// Kinds of message that a robot's NetsBlox peer sends, by their first byte.
#[derive(Debug, Clone, Copy, PartialEq, Eq, Structural)]
pub enum MessageType {
    Drive,
    SetSpeed,
    Beep,
    SetLED,
    GetRange,
    GetTicks,
    SetNumeric,
    ButtonPress,
    Initialize,
}

impl MessageType {
    /// The byte that opens a message of each kind.
    pub open spec fn spec_byte(self) -> u8 {
        match self {
            MessageType::Drive => 68,
            MessageType::SetSpeed => 83,
            MessageType::Beep => 66,
            MessageType::SetLED => 76,
            MessageType::GetRange => 82,
            MessageType::GetTicks => 84,
            MessageType::SetNumeric => 110,
            MessageType::ButtonPress => 80,
            MessageType::Initialize => 73,
        }
    }

    /// The kind of message that a first byte announces, if any.
    pub open spec fn spec_from_byte(byte: u8) -> Option<MessageType> {
        if byte == 68 {
            Some(MessageType::Drive)
        } else if byte == 83 {
            Some(MessageType::SetSpeed)
        } else if byte == 66 {
            Some(MessageType::Beep)
        } else if byte == 76 {
            Some(MessageType::SetLED)
        } else if byte == 82 {
            Some(MessageType::GetRange)
        } else if byte == 84 {
            Some(MessageType::GetTicks)
        } else if byte == 110 {
            Some(MessageType::SetNumeric)
        } else if byte == 80 {
            Some(MessageType::ButtonPress)
        } else if byte == 73 {
            Some(MessageType::Initialize)
        } else {
            None
        }
    }

    /// Kinds of message that are refused when they follow the previous one too closely.
    pub open spec fn spec_requires_timing_check(self) -> bool {
        match self {
            MessageType::SetNumeric | MessageType::SetLED | MessageType::Initialize
            | MessageType::GetRange | MessageType::GetTicks => false,
            _ => true,
        }
    }

    pub fn from_byte(byte: u8) -> (r: Option<Self>)
        ensures
            r == Self::spec_from_byte(byte),
    {
        match byte {
            68u8 => Some(Self::Drive),
            83u8 => Some(Self::SetSpeed),
            66u8 => Some(Self::Beep),
            76u8 => Some(Self::SetLED),
            82u8 => Some(Self::GetRange),
            84u8 => Some(Self::GetTicks),
            110u8 => Some(Self::SetNumeric),
            80u8 => Some(Self::ButtonPress),
            73u8 => Some(Self::Initialize),
            _ => None,
        }
    }

    pub fn to_byte(self) -> (b: u8)
        ensures
            b == self.spec_byte(),
    {
        match self {
            Self::Drive => 68u8,
            Self::SetSpeed => 83u8,
            Self::Beep => 66u8,
            Self::SetLED => 76u8,
            Self::GetRange => 82u8,
            Self::GetTicks => 84u8,
            Self::SetNumeric => 110u8,
            Self::ButtonPress => 80u8,
            Self::Initialize => 73u8,
        }
    }

    pub fn requires_timing_check(self) -> (r: bool)
        ensures
            r == self.spec_requires_timing_check(),
    {
        match self {
            Self::SetNumeric | Self::SetLED | Self::Initialize | Self::GetRange | Self::GetTicks => {
                false
            },
            _ => true,
        }
    }
}

/// Every kind of message is announced by its own byte, and reading that
/// byte back gives the same kind; a byte that announces a kind is that kind's byte.
pub proof fn lemma_message_type_byte_round_trip(t: MessageType, byte: u8)
    ensures
        MessageType::spec_from_byte(t.spec_byte()) == Some(t),
        MessageType::spec_from_byte(byte) == Some(t) ==> t.spec_byte() == byte,
{
}

/// The unsigned 16-bit number stored little-endian in two bytes.
pub open spec fn le_u16(lo: u8, hi: u8) -> int {
    lo + 256 * hi
}

/// The four big-endian bytes of a 32-bit number.
pub open spec fn be_bytes_u32(v: u32) -> Seq<u8> {
    seq![(v / 16777216) as u8, ((v / 65536) % 256) as u8, ((v / 256) % 256) as u8, (v % 256) as u8]
}

/// The four little-endian bytes of a 32-bit number.
pub open spec fn le_bytes_u32(v: u32) -> Seq<u8> {
    seq![(v % 256) as u8, ((v / 256) % 256) as u8, ((v / 65536) % 256) as u8, (v / 16777216) as u8]
}

/// The two little-endian bytes of a 16-bit number.
pub open spec fn le_bytes_u16(v: u16) -> Seq<u8> {
    seq![(v % 256) as u8, (v / 256) as u8]
}

/// A command carried by a message from the robot's NetsBlox peer.
#[derive(Debug, Clone, Copy, PartialEq, Eq, Structural)]
pub enum RobotCommand {
    /// Drive a distance: the first number is the right wheel's, the second the left wheel's.
    Drive { first: i16, second: i16 },
    /// Set wheel speeds: the first number is the right wheel's, the second the left wheel's.
    SetSpeed { first: i16, second: i16 },
    Beep { frequency: u16, duration: u16 },
    SetLED,
    GetRange,
    GetTicks,
    SetNumeric { value: u8 },
    ButtonPress,
    Initialize,
}

/// What a received message asks of the simulated robot.
#[derive(Debug, Clone, Copy, PartialEq, Eq, Structural)]
pub enum IncomingMessage {
    /// The first byte names no kind of message; the message is dropped.
    Unknown { type_byte: u8 },
    /// The message came too soon after the previous one and is dropped.
    TooSoon,
    /// A command to carry out; the message is then sent back to its sender.
    Command(RobotCommand),
}

/// Whether a message of this kind, `elapsed_ms` milliseconds after the previous
/// one, is refused under a minimum spacing of `min_spacing_ms`.
pub open spec fn spec_too_soon(t: MessageType, min_spacing_ms: u128, elapsed_ms: u128) -> bool {
    t.spec_requires_timing_check() && min_spacing_ms > 0 && elapsed_ms < min_spacing_ms
}

/// The command that a well-timed message of a known kind carries.
pub open spec fn spec_command(t: MessageType, buf: Seq<u8>) -> RobotCommand
    recommends
        buf.len() > 4,
{
    match t {
        MessageType::Drive => RobotCommand::Drive {
            first: le_u16(buf[1], buf[2]) as i16,
            second: le_u16(buf[3], buf[4]) as i16,
        },
        MessageType::SetSpeed => RobotCommand::SetSpeed {
            first: le_u16(buf[1], buf[2]) as i16,
            second: le_u16(buf[3], buf[4]) as i16,
        },
        MessageType::Beep => RobotCommand::Beep {
            frequency: le_u16(buf[1], buf[2]) as u16,
            duration: le_u16(buf[3], buf[4]) as u16,
        },
        MessageType::SetLED => RobotCommand::SetLED,
        MessageType::GetRange => RobotCommand::GetRange,
        MessageType::GetTicks => RobotCommand::GetTicks,
        MessageType::SetNumeric => RobotCommand::SetNumeric { value: buf[1] },
        MessageType::ButtonPress => RobotCommand::ButtonPress,
        MessageType::Initialize => RobotCommand::Initialize,
    }
}

/// How a received message is handled.
pub open spec fn spec_decode(buf: Seq<u8>, min_spacing_ms: u128, elapsed_ms: u128) -> IncomingMessage
    recommends
        buf.len() > 4,
{
    match MessageType::spec_from_byte(buf[0]) {
        None => IncomingMessage::Unknown { type_byte: buf[0] },
        Some(t) => if spec_too_soon(t, min_spacing_ms, elapsed_ms) {
            IncomingMessage::TooSoon
        } else {
            IncomingMessage::Command(spec_command(t, buf))
        },
    }
}

fn read_u16_le(lo: u8, hi: u8) -> (r: u16)
    ensures
        r == le_u16(lo, hi),
{
    (lo as u16) + (hi as u16) * 256
}

/// Decide what a message received from the robot's NetsBlox peer asks for,
/// given the robot's minimum message spacing and the milliseconds since its
/// previous accepted message.
pub fn decode_roboscape_message(buf: &[u8; 512], min_spacing_ms: u128, elapsed_ms: u128) -> (r:
    IncomingMessage)
    ensures
        r == spec_decode(buf@, min_spacing_ms, elapsed_ms),
{
    let msg_type = match MessageType::from_byte(buf[0]) {
        None => {
            return IncomingMessage::Unknown { type_byte: buf[0] };
        },
        Some(t) => t,
    };
    if msg_type.requires_timing_check() && min_spacing_ms > 0 && elapsed_ms < min_spacing_ms {
        return IncomingMessage::TooSoon;
    }
    let a = read_u16_le(buf[1], buf[2]);
    let b = read_u16_le(buf[3], buf[4]);
    let command = match msg_type {
        MessageType::Drive => RobotCommand::Drive { first: a as i16, second: b as i16 },
        MessageType::SetSpeed => RobotCommand::SetSpeed { first: a as i16, second: b as i16 },
        MessageType::Beep => RobotCommand::Beep { frequency: a, duration: b },
        MessageType::SetLED => RobotCommand::SetLED,
        MessageType::GetRange => RobotCommand::GetRange,
        MessageType::GetTicks => RobotCommand::GetTicks,
        MessageType::SetNumeric => RobotCommand::SetNumeric { value: buf[1] },
        MessageType::ButtonPress => RobotCommand::ButtonPress,
        MessageType::Initialize => RobotCommand::Initialize,
    };
    IncomingMessage::Command(command)
}

/// A message to the NetsBlox server: the robot's MAC address, the seconds since
/// the robot started (big-endian), then the message itself.
pub fn frame_roboscape_message(mac: &[u8; 6], seconds: u32, message: &[u8]) -> (buf: Vec<u8>)
    ensures
        buf@ == mac@ + be_bytes_u32(seconds) + message@,
{
    let mut buf: Vec<u8> = Vec::new();
    let mut i: usize = 0;
    while i < 6
        invariant
            i <= 6,
            buf@ == mac@.subrange(0, i as int),
        decreases 6 - i,
    {
        buf.push(mac[i]);
        assert(buf@ =~= mac@.subrange(0, i + 1));
        i += 1;
    }
    assert(mac@.subrange(0, 6) =~= mac@);
    buf.push((seconds / 16777216) as u8);
    buf.push(((seconds / 65536) % 256) as u8);
    buf.push(((seconds / 256) % 256) as u8);
    buf.push((seconds % 256) as u8);
    let ghost header = buf@;
    assert(header =~= mac@ + be_bytes_u32(seconds));
    let mut j: usize = 0;
    while j < message.len()
        invariant
            j <= message.len(),
            buf@ == header + message@.subrange(0, j as int),
        decreases message.len() - j,
    {
        buf.push(message[j]);
        assert(buf@ =~= header + message@.subrange(0, j + 1));
        j += 1;
    }
    assert(message@.subrange(0, message.len() as int) =~= message@);
    buf
}

/// Reply to a ticks request: `T`, then the right wheel's ticks and the left
/// wheel's ticks, each as four little-endian bytes.
pub fn ticks_message(left_ticks: i32, right_ticks: i32) -> (m: [u8; 9])
    ensures
        m@ == seq![84u8] + le_bytes_u32(right_ticks as u32) + le_bytes_u32(left_ticks as u32),
{
    let r = right_ticks as u32;
    let l = left_ticks as u32;
    let m = [
        84u8,
        (r % 256) as u8,
        ((r / 256) % 256) as u8,
        ((r / 65536) % 256) as u8,
        (r / 16777216) as u8,
        (l % 256) as u8,
        ((l / 256) % 256) as u8,
        ((l / 65536) % 256) as u8,
        (l / 16777216) as u8,
    ];
    assert(m@ =~= seq![84u8] + le_bytes_u32(r) + le_bytes_u32(l));
    m
}

/// Reply to a range request: `R`, then the distance in centimetres as two little-endian bytes.
pub fn range_message(distance: u16) -> (m: [u8; 3])
    ensures
        m@ == seq![82u8] + le_bytes_u16(distance),
{
    let m = [82u8, (distance % 256) as u8, (distance / 256) as u8];
    assert(m@ =~= seq![82u8] + le_bytes_u16(distance));
    m
}

/// Whisker report: `W`, then 1 for a free right whisker plus 2 for a free left whisker.
pub fn whisker_message(whisker_states: [bool; 2]) -> (m: [u8; 2])
    ensures
        m@ == seq![
            87u8,
            ((if whisker_states[1] { 0int } else { 1int }) + (if whisker_states[0] { 0int } else { 2int })) as u8,
        ],
{
    let right: u8 = if whisker_states[1] { 0 } else { 1 };
    let left: u8 = if whisker_states[0] { 0 } else { 2 };
    let m = [87u8, right + left];
    assert(m@ =~= seq![
        87u8,
        ((if whisker_states[1] { 0int } else { 1int }) + (if whisker_states[0] { 0int } else { 2int })) as u8,
    ]);
    m
}

/// The whisker report to send after a step: one when the whiskers changed,
/// none otherwise.
pub fn whisker_change(previous: [bool; 2], current: [bool; 2]) -> (m: Option<[u8; 2]>)
    ensures
        match m {
            Some(msg) => previous@ != current@ && msg@ == seq![
                87u8,
                ((if current[1] { 0int } else { 1int }) + (if current[0] { 0int } else { 2int })) as u8,
            ],
            None => previous@ == current@,
        },
{
    if previous[0] == current[0] && previous[1] == current[1] {
        assert(previous@ =~= current@);
        None
    } else {
        assert(previous@[0] != current@[0] || previous@[1] != current@[1]);
        Some(whisker_message(current))
    }
}

/// Whether the robot is due to greet its NetsBlox peer again: it is when more
/// than 50 seconds passed since the last heartbeat.
pub fn heartbeat_due(now: i64, last_heartbeat: i64) -> (r: bool)
    ensures
        r == (now - last_heartbeat > 50),
{
    let elapsed: i128 = (now as i128) - (last_heartbeat as i128);
    elapsed > 50
}

/// How each message from the robot's NetsBlox peer is read, by byte position:
/// drive and speed messages carry the right wheel's number in bytes 1 and 2
/// and the left wheel's in bytes 3 and 4, each a little-endian signed word; a
/// beep carries its frequency and then its duration the same way, unsigned; a
/// numeric message its value in byte 1. Drive, speed, beep and button messages
/// are refused when they come within the spacing; the others never are; any
/// other first byte names no message.
pub proof fn lemma_decode_by_byte_position(buf: Seq<u8>, min_spacing_ms: u128, elapsed_ms: u128)
    requires
        buf.len() > 4,
    ensures
        ({
            let soon = min_spacing_ms > 0 && elapsed_ms < min_spacing_ms;
            let d = spec_decode(buf, min_spacing_ms, elapsed_ms);
            &&& buf[0] == 68 ==> d == if soon {
                IncomingMessage::TooSoon
            } else {
                IncomingMessage::Command(
                    RobotCommand::Drive {
                        first: (buf[1] + 256 * buf[2]) as i16,
                        second: (buf[3] + 256 * buf[4]) as i16,
                    },
                )
            }
            &&& buf[0] == 83 ==> d == if soon {
                IncomingMessage::TooSoon
            } else {
                IncomingMessage::Command(
                    RobotCommand::SetSpeed {
                        first: (buf[1] + 256 * buf[2]) as i16,
                        second: (buf[3] + 256 * buf[4]) as i16,
                    },
                )
            }
            &&& buf[0] == 66 ==> d == if soon {
                IncomingMessage::TooSoon
            } else {
                IncomingMessage::Command(
                    RobotCommand::Beep {
                        frequency: (buf[1] + 256 * buf[2]) as u16,
                        duration: (buf[3] + 256 * buf[4]) as u16,
                    },
                )
            }
            &&& buf[0] == 80 ==> d == if soon {
                IncomingMessage::TooSoon
            } else {
                IncomingMessage::Command(RobotCommand::ButtonPress)
            }
            &&& buf[0] == 110 ==> d == IncomingMessage::Command(RobotCommand::SetNumeric { value: buf[1] })
            &&& buf[0] == 76 ==> d == IncomingMessage::Command(RobotCommand::SetLED)
            &&& buf[0] == 82 ==> d == IncomingMessage::Command(RobotCommand::GetRange)
            &&& buf[0] == 84 ==> d == IncomingMessage::Command(RobotCommand::GetTicks)
            &&& buf[0] == 73 ==> d == IncomingMessage::Command(RobotCommand::Initialize)
            &&& !(buf[0] == 68 || buf[0] == 83 || buf[0] == 66 || buf[0] == 80 || buf[0] == 110 || buf[0] == 76
                || buf[0] == 82 || buf[0] == 84 || buf[0] == 73) ==> d == IncomingMessage::Unknown {
                type_byte: buf[0],
            }
        }),
{
}

/// The two wheels of a drive message are read independently: two messages
/// that differ only in bytes 3 and 4 give the same right wheel number, and two
/// that differ only in bytes 1 and 2 the same left wheel number.
pub proof fn lemma_drive_wheels_independent(a: Seq<u8>, b: Seq<u8>)
    requires
        a.len() > 4,
        b.len() > 4,
        a[0] == 68,
        b[0] == 68,
    ensures
        a[1] == b[1] && a[2] == b[2] ==> spec_decode(a, 0, 0)->0->Drive_first == spec_decode(b, 0, 0)->0->Drive_first,
        a[3] == b[3] && a[4] == b[4] ==> spec_decode(a, 0, 0)->0->Drive_second == spec_decode(b, 0, 0)->0->Drive_second,
{
    lemma_decode_by_byte_position(a, 0, 0);
    lemma_decode_by_byte_position(b, 0, 0);
}

} // verus!

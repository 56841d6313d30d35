//! Reading the load commands of a 64-bit Mach-O image.

use uuid::Uuid;
use vstd::prelude::*;
use vstd::slice::slice_subrange;

verus! {

/// The code of the load command that describes a 64-bit segment.
pub const LC_SEGMENT_64: u32 = 0x19;

/// The code of the load command that holds the UUID of the image.
pub const LC_UUID: u32 = 0x1b;

/// The size in bytes of the two fields that every load command begins with.
pub const COMMAND_HEADER_SIZE: u64 = 8;

/// The 32-bit number that stands at `at` in little-endian byte order.
pub open spec fn le_u32(bytes: Seq<u8>, at: int) -> u32 {
    (bytes[at] + bytes[at + 1] * 0x100 + bytes[at + 2] * 0x1_0000 + bytes[at + 3]
        * 0x100_0000) as u32
}

/// The 64-bit number that stands at `at` in little-endian byte order.
pub open spec fn le_u64(bytes: Seq<u8>, at: int) -> u64 {
    (le_u32(bytes, at) + le_u32(bytes, at + 4) * 0x1_0000_0000) as u64
}

/// The name of the text segment as it stands in a segment command.
pub open spec fn text_segment_name() -> Seq<u8> {
    seq![0x5fu8, 0x5fu8, 0x54u8, 0x45u8, 0x58u8, 0x54u8, 0u8]
}

/// What the load commands of an image say of it.
pub struct CommandFacts {
    /// The size of the text segment in memory; 0 where there is none.
    pub vmsize: u64,
    /// The 16 bytes of the UUID, where the image has one.
    pub uuid: Option<Seq<u8>>,
}

/// Why load commands could not be read.
#[derive(Clone, Copy, Debug, PartialEq, Eq, Structural)]
pub enum CommandError {
    /// A command, or a field of it that is needed, lies past the end of the buffer.
    Truncated,
}

/// The facts after the command with the code `command` at `offset`.
pub open spec fn command_effect(
    buffer: Seq<u8>,
    offset: int,
    command: u32,
    facts: CommandFacts,
) -> Result<CommandFacts, CommandError> {
    if command == LC_SEGMENT_64 {
        if offset + 40 > buffer.len() {
            Err(CommandError::Truncated)
        } else if buffer.subrange(offset + 8, offset + 15) == text_segment_name() {
            Ok(CommandFacts { vmsize: le_u64(buffer, offset + 32), uuid: facts.uuid })
        } else {
            Ok(facts)
        }
    } else if command == LC_UUID {
        if offset + 24 > buffer.len() {
            Err(CommandError::Truncated)
        } else {
            Ok(
                CommandFacts {
                    vmsize: facts.vmsize,
                    uuid: Some(buffer.subrange(offset + 8, offset + 24)),
                },
            )
        }
    } else {
        Ok(facts)
    }
}

/// The facts after `count` commands, the first of which stands at `offset`.
/// Each command begins with its code and its size, and the next command
/// stands that many bytes further on.
pub open spec fn commands_from(
    buffer: Seq<u8>,
    offset: int,
    count: nat,
    facts: CommandFacts,
) -> Result<CommandFacts, CommandError>
    decreases count,
{
    if count == 0 {
        Ok(facts)
    } else if offset < 0 || offset + 8 > buffer.len() {
        Err(CommandError::Truncated)
    } else {
        match command_effect(buffer, offset, le_u32(buffer, offset), facts) {
            Err(error) => Err(error),
            Ok(next) => commands_from(
                buffer,
                offset + le_u32(buffer, offset + 4),
                (count - 1) as nat,
                next,
            ),
        }
    }
}

/// What `count` load commands in `buffer` say of their image.
pub open spec fn parse_commands(buffer: Seq<u8>, count: u32) -> Result<CommandFacts, CommandError> {
    commands_from(buffer, 0, count as nat, CommandFacts { vmsize: 0, uuid: None })
}

/// The 16 bytes of a UUID.
pub uninterp spec fn uuid_bytes(id: Uuid) -> Seq<u8>;

#[verifier::external_type_specification]
#[verifier::external_body]
pub struct ExUuid(Uuid);

/// `Uuid::from_slice`: a UUID of exactly the bytes given, which is there if
/// and only if they are 16.
#[verifier::external_body]
fn uuid_from_slice(bytes: &[u8]) -> (id: Option<Uuid>)
    ensures
        id is Some <==> bytes@.len() == 16,
        id matches Some(id) ==> uuid_bytes(id) == bytes@,
{
    Uuid::from_slice(bytes).ok()
}

/// What the load commands of an image say of it, as far as they are read.
pub struct LoadCommands {
    pub vmsize: u64,
    pub uuid: Option<Uuid>,
}

impl View for LoadCommands {
    type V = CommandFacts;

    open spec fn view(&self) -> CommandFacts {
        CommandFacts {
            vmsize: self.vmsize,
            uuid: match self.uuid {
                Some(id) => Some(uuid_bytes(id)),
                None => None,
            },
        }
    }
}

/// Reads the 32-bit number at `at`.
pub fn read_u32(bytes: &[u8], at: usize) -> (value: u32)
    requires
        at + 4 <= bytes@.len(),
    ensures
        value == le_u32(bytes@, at as int),
{
    let length = bytes.len();
    assert(at + 4 <= length);
    let b0: u32 = bytes[at] as u32;
    let b1: u32 = bytes[at + 1] as u32;
    let b2: u32 = bytes[at + 2] as u32;
    let b3: u32 = bytes[at + 3] as u32;
    b0 + b1 * 0x100 + b2 * 0x1_0000 + b3 * 0x100_0000
}

/// Reads the 64-bit number at `at`.
pub fn read_u64(bytes: &[u8], at: usize) -> (value: u64)
    requires
        at + 8 <= bytes@.len(),
    ensures
        value == le_u64(bytes@, at as int),
{
    let length = bytes.len();
    assert(at + 8 <= length);
    let low: u64 = read_u32(bytes, at) as u64;
    let high: u64 = read_u32(bytes, at + 4) as u64;
    low + high * 0x1_0000_0000
}

fn is_text_segment(name: &[u8]) -> (is_text: bool)
    requires
        name@.len() == 7,
    ensures
        is_text == (name@ == text_segment_name()),
{
    let is_text = name[0] == 0x5f && name[1] == 0x5f && name[2] == 0x54 && name[3] == 0x45
        && name[4] == 0x58 && name[5] == 0x54 && name[6] == 0;
    assert(is_text == (name@ =~= text_segment_name()));
    is_text
}

/// Reads `count` load commands from `buffer`: the size of the segment
/// `__TEXT` in memory and the UUID of the image. Where several commands give
/// one of the two, the last counts. Fails where a command does not lie in
/// the buffer.
pub fn parse_load_commands(buffer: &[u8], count: u32) -> (facts: Result<LoadCommands, CommandError>)
    ensures
        match facts {
            Ok(facts) => parse_commands(buffer@, count) == Ok::<CommandFacts, CommandError>(facts@),
            Err(error) => parse_commands(buffer@, count) == Err::<CommandFacts, CommandError>(
                error,
            ),
        },
{
    let mut facts = LoadCommands { vmsize: 0, uuid: None };
    let mut offset: u64 = 0;
    let mut done: u32 = 0;
    let length = buffer.len();
    while done < count
        invariant
            done <= count,
            length == buffer@.len(),
            offset <= done * 0x1_0000_0000,
            commands_from(buffer@, offset as int, (count - done) as nat, facts@) == parse_commands(
                buffer@,
                count,
            ),
        decreases count - done,
    {
        if offset > u64::MAX - 8 || offset + 8 > length as u64 {
            return Err(CommandError::Truncated);
        }
        let at = offset as usize;
        let command = read_u32(buffer, at);
        let size = read_u32(buffer, at + 4);
        if command == LC_SEGMENT_64 {
            if at > usize::MAX - 40 || at + 40 > length {
                return Err(CommandError::Truncated);
            }
            if is_text_segment(slice_subrange(buffer, at + 8, at + 15)) {
                facts.vmsize = read_u64(buffer, at + 32);
            }
        } else if command == LC_UUID {
            if at > usize::MAX - 24 || at + 24 > length {
                return Err(CommandError::Truncated);
            }
            facts.uuid = uuid_from_slice(slice_subrange(buffer, at + 8, at + 24));
        }
        offset = offset + size as u64;
        done = done + 1;
    }
    Ok(facts)
}

} // verus!

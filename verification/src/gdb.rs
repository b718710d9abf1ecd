//! The GDB remote serial protocol: parsing the commands GDB sends and
//! building the replies.

use vstd::prelude::*;
use crate::dmg::DMG;
use crate::memory::{MemView, MemoryController};
use crate::sm83::Register;
use vstd::utf8::encode_utf8;
use crate::text::{
    find_char, find_char_exec, hex2, hex_digits, hex_value, parses_as_hex_usize, push_hex2,
    radix16_error_text, starts_with_char, str_eq, usize_from_hex,
};

verus! {

#[derive(Debug, PartialEq)]
pub enum Command {
    Unknown(String),
    Plus,
    /// ?
    StopQuery,
    /// Get register values
    G,
    /// Read register x
    P,
    /// Read memory
    M(MemoryRange),
    QSupported(GDBFeatures),
    /// query current thread
    QC,
    QAttached,
    QTStatus,
    QFThreadInfo,
    VContQ,
    VMustReplyEmpty,
    /// Set thread for sub-sequent operation
    H(HParams),
}

#[derive(Debug, PartialEq)]
pub struct GDBFeatures {}

#[derive(Debug, PartialEq)]
pub struct HParams {}

#[derive(Debug, PartialEq)]
pub struct MemoryRange {
    pub addr: usize,
    pub length: usize,
}

/// A command as a mathematical value.
pub ghost enum CommandView {
    Unknown(Seq<char>),
    Plus,
    StopQuery,
    G,
    P,
    M(usize, usize),
    QSupported,
    QC,
    QAttached,
    QTStatus,
    QFThreadInfo,
    VContQ,
    VMustReplyEmpty,
    H,
}

impl View for Command {
    type V = CommandView;

    open spec fn view(&self) -> CommandView {
        match self {
            Command::Unknown(s) => CommandView::Unknown(s@),
            Command::Plus => CommandView::Plus,
            Command::StopQuery => CommandView::StopQuery,
            Command::G => CommandView::G,
            Command::P => CommandView::P,
            Command::M(r) => CommandView::M(r.addr, r.length),
            Command::QSupported(_) => CommandView::QSupported,
            Command::QC => CommandView::QC,
            Command::QAttached => CommandView::QAttached,
            Command::QTStatus => CommandView::QTStatus,
            Command::QFThreadInfo => CommandView::QFThreadInfo,
            Command::VContQ => CommandView::VContQ,
            Command::VMustReplyEmpty => CommandView::VMustReplyEmpty,
            Command::H(_) => CommandView::H,
        }
    }
}

/// The text `{:?}` gives for the string `s`.
pub uninterp spec fn str_debug_text(s: Seq<char>) -> Seq<char>;

/// Formats `s` with `{:?}`. Trusted: calls std's `Debug` for `str`, which
/// quotes and escapes the string.
#[verifier::external_body]
fn str_debug(s: &str) -> (r: String)
    ensures
        r@ == str_debug_text(s@),
{
    format!("{:?}", s)
}

// ---------------------------------------------------------------------------
// parsing

/// The result of parsing a memory range `addr,length` (both hexadecimal).
pub open spec fn spec_parse_memory_range(s: Seq<char>) -> Result<(usize, usize), Seq<char>> {
    match find_char(s, ',') {
        None => Err("invalid memory range: "@ + s),
        Some(i) => {
            let a = s.subrange(0, i);
            let l = s.subrange(i + 1, s.len() as int);
            if !parses_as_hex_usize(a) {
                Err(radix16_error_text(a))
            } else if !parses_as_hex_usize(l) {
                Err(radix16_error_text(l))
            } else {
                Ok((hex_value(hex_digits(a)) as usize, hex_value(hex_digits(l)) as usize))
            }
        },
    }
}

/// The command that the command name `command` (the part before any `:`)
/// stands for.
pub open spec fn spec_classify(command: Seq<char>) -> Result<CommandView, Seq<char>> {
    if command == "?"@ {
        Ok(CommandView::StopQuery)
    } else if command.len() > 0 && command[0] == 'p' {
        Ok(CommandView::P)
    } else if command.len() > 0 && command[0] == 'm' {
        match spec_parse_memory_range(command.drop_first()) {
            Ok((a, l)) => Ok(CommandView::M(a, l)),
            Err(e) => Err(e),
        }
    } else if command == "g"@ {
        Ok(CommandView::G)
    } else if command.len() > 0 && command[0] == 'H' {
        Ok(CommandView::H)
    } else if command == "qSupported"@ {
        Ok(CommandView::QSupported)
    } else if command == "qC"@ {
        Ok(CommandView::QC)
    } else if command == "qAttached"@ {
        Ok(CommandView::QAttached)
    } else if command == "qTStatus"@ {
        Ok(CommandView::QTStatus)
    } else if command == "qfThreadInfo"@ {
        Ok(CommandView::QFThreadInfo)
    } else if command == "vCont?"@ {
        Ok(CommandView::VContQ)
    } else if command == "vMustReplyEmpty"@ {
        Ok(CommandView::VMustReplyEmpty)
    } else {
        Ok(CommandView::Unknown(command))
    }
}

/// The command name: the packet body up to the first `:`.
pub open spec fn command_name(body: Seq<char>) -> Seq<char> {
    match find_char(body, ':') {
        Some(i) => body.subrange(0, i),
        None => body,
    }
}

/// The result of parsing the next command of `s`: the command (none while
/// the packet is incomplete) and the input left after it. A packet
/// `$...#` leaves nothing, whatever follows its `#`.
pub open spec fn spec_parse_next_command(s: Seq<char>) -> Result<(Option<CommandView>, Seq<char>), Seq<char>> {
    if s.len() > 0 && s[0] == '+' {
        Ok((Some(CommandView::Plus), s.drop_first()))
    } else {
        match find_char(s, '#') {
            None => Ok((None, s)),
            Some(end) => if !(s.len() > 0 && s[0] == '$') {
                Err("invalid command: "@ + s)
            } else {
                match spec_classify(command_name(s.subrange(1, end))) {
                    Ok(c) => Ok((Some(c), Seq::<char>::empty())),
                    Err(e) => Err(e),
                }
            },
        }
    }
}

/// `r` is what parsing `s` gives.
pub open spec fn parsed_as(r: Result<(Option<Command>, &str), String>, s: Seq<char>) -> bool {
    match (r, spec_parse_next_command(s)) {
        (Ok((c, rest)), Ok((cv, restv))) => rest@ == restv && match (c, cv) {
            (Some(c), Some(cv)) => c@ == cv,
            (None, None) => true,
            _ => false,
        },
        (Err(e), Err(ev)) => e@ == ev,
        _ => false,
    }
}

pub fn parse_next_command(input: &str) -> (r: Result<(Option<Command>, &str), String>)
    ensures
        parsed_as(r, input@),
{
    if starts_with_char(input, '+') {
        let n = input.unicode_len();
        return Ok((Some(Command::Plus), input.substring_char(1, n)));
    }
    let may_end_ix = find_char_exec(input, '#');
    if may_end_ix.is_none() {
        // command not yet complete, wait for next try with more input
        return Ok((None, input));
    }
    let end_ix = may_end_ix.unwrap();

    if !starts_with_char(input, '$') {
        let mut msg = String::from_str("invalid command: ");
        msg.append(input);
        return Err(msg);
    }
    // extract the command part

    let body = input.substring_char(1, end_ix);
    let (command, params) = if let Some(i) = find_char_exec(body, ':') {
        let n = body.unicode_len();
        (body.substring_char(0, i), body.substring_char(i + 1, n))
    } else {
        (body, "")
    };

    let cmd = match classify(command, params) {
        Ok(c) => c,
        Err(e) => return Err(e),
    };

    // the packet body ends before `end_ix`, so nothing is left of it there
    let body_len = body.unicode_len();
    let rest = if end_ix <= body_len {
        body.substring_char(end_ix, body_len)
    } else {
        ""
    };
    proof {
        reveal_strlit("");
        assert(body@ == input@.subrange(1, end_ix as int));
        assert(command@ == command_name(body@));
        assert(rest@ =~= Seq::<char>::empty());
    }
    Ok((Some(cmd), rest))
}

/// Turns the command name `command` (with its parameters `params`) into a
/// command.
fn classify(command: &str, params: &str) -> (r: Result<Command, String>)
    ensures
        match (r, spec_classify(command@)) {
            (Ok(c), Ok(cv)) => c@ == cv,
            (Err(e), Err(ev)) => e@ == ev,
            _ => false,
        },
{
    let cmd = if str_eq(command, "?") {
        Command::StopQuery
    } else if starts_with_char(command, 'p') {
        Command::P  // the register number is not parsed
    } else if starts_with_char(command, 'm') {
        let n = command.unicode_len();
        if n >= 1 {
            let mem_range = command.substring_char(1, n);
            match parse_memory_range(mem_range) {
                Ok(range) => Command::M(range),
                Err(e) => return Err(e),
            }
        } else {
            let mut msg = String::from_str("m: invalid memory range: ");
            msg.append(command);
            return Err(msg);
        }
    } else if str_eq(command, "g") {
        Command::G
    } else if starts_with_char(command, 'H') {
        match parse_h_params(command) {
            Ok(p) => Command::H(p),
            Err(e) => return Err(e),
        }
    } else if str_eq(command, "qSupported") {
        match parse_gdb_features(params) {
            Ok(f) => Command::QSupported(f),
            Err(e) => return Err(e),
        }
    } else if str_eq(command, "qC") {
        Command::QC
    } else if str_eq(command, "qAttached") {
        Command::QAttached
    } else if str_eq(command, "qTStatus") {
        Command::QTStatus
    } else if str_eq(command, "qfThreadInfo") {
        Command::QFThreadInfo
    } else if str_eq(command, "vCont?") {
        Command::VContQ
    } else if str_eq(command, "vMustReplyEmpty") {
        Command::VMustReplyEmpty
    } else {
        Command::Unknown(String::from_str(command))
    };
    proof {
        assert(command@.drop_first() =~= command@.subrange(1, command@.len() as int));
    }
    Ok(cmd)
}

/// The features GDB announces are not interpreted.
pub fn parse_gdb_features(param_str: &str) -> (r: Result<GDBFeatures, String>)
    ensures
        r is Ok,
{
    Ok(GDBFeatures {  })
}

/// The thread parameters of `H` are not interpreted.
pub fn parse_h_params(h_command: &str) -> (r: Result<HParams, String>)
    ensures
        r is Ok,
{
    Ok(HParams {  })
}

pub fn parse_memory_range(input: &str) -> (r: Result<MemoryRange, String>)
    ensures
        match (r, spec_parse_memory_range(input@)) {
            (Ok(m), Ok((a, l))) => m.addr == a && m.length == l,
            (Err(e), Err(ev)) => e@ == ev,
            _ => false,
        },
{
    if let Some(i) = find_char_exec(input, ',') {
        let n = input.unicode_len();
        let addr_str = input.substring_char(0, i);
        let len_str = input.substring_char(i + 1, n);
        let addr = match usize_from_hex(addr_str) {
            Ok(v) => v,
            Err(e) => return Err(e),
        };
        let len = match usize_from_hex(len_str) {
            Ok(v) => v,
            Err(e) => return Err(e),
        };
        Ok(MemoryRange { addr: addr, length: len })
    } else {
        let mut msg = String::from_str("invalid memory range: ");
        msg.append(input);
        Err(msg)
    }
}

// ---------------------------------------------------------------------------
// replies

/// The modulo 256 sum of the bytes `b`.
pub open spec fn checksum(b: Seq<u8>) -> u8
    decreases b.len(),
{
    if b.len() == 0 {
        0
    } else {
        ((checksum(b.drop_last()) + b.last()) % 256) as u8
    }
}

/// The text of a packet: an optional ack `+`, then `$`, the content, `#` and
/// the checksum of the content's UTF-8 bytes in two lower case hex digits.
pub open spec fn packet_text(content: Seq<char>, prepend_ack: bool) -> Seq<char> {
    (if prepend_ack {
        seq!['+']
    } else {
        Seq::<char>::empty()
    }) + seq!['$'] + content + seq!['#'] + hex2(checksum(encode_utf8(content)), false)
}

pub struct Packet {
    content: String,
    /// This message needs to prepend the ack first
    prepend_ack: bool,
}

impl View for Packet {
    type V = (Seq<char>, bool);

    closed spec fn view(&self) -> (Seq<char>, bool) {
        (self.content@, self.prepend_ack)
    }
}

impl Packet {
    /// A regular message that prepends a ack (+) in the reply.
    pub fn ack(content: &str) -> (p: Packet)
        ensures
            p@ == (content@, true),
    {
        Packet { content: String::from_str(content), prepend_ack: true }
    }

    pub fn nack(content: &str) -> (p: Packet)
        ensures
            p@ == (content@, false),
    {
        Packet { content: String::from_str(content), prepend_ack: false }
    }

    /// Constructs the packet string in the format that it can be send
    /// back to gdb: (+)$...#xx
    pub fn packet_string(&self) -> (s: String)
        ensures
            s@ == packet_text(self@.0, self@.1),
    {
        let bytes = self.content.as_str().as_bytes();
        let n = bytes.len();
        let mut cs: u8 = 0;
        let mut i: usize = 0;
        while i < n
            invariant
                n == bytes@.len(),
                bytes@ == encode_utf8(self.content@),
                i <= n,
                cs == checksum(bytes@.subrange(0, i as int)),
            decreases n - i,
        {
            assert(bytes@.subrange(0, i + 1).drop_last() =~= bytes@.subrange(0, i as int));
            cs = ((cs as u16 + bytes[i] as u16) % 256) as u8;
            i = i + 1;
        }
        assert(bytes@.subrange(0, n as int) =~= bytes@);
        let mut s = String::new();
        if self.prepend_ack {
            s.append("+");
        }
        s.append("$");
        s.append(self.content.as_str());
        s.append("#");
        push_hex2(&mut s, cs, false);
        proof {
            reveal_strlit("+");
            reveal_strlit("$");
            reveal_strlit("#");
            assert(s@ =~= packet_text(self@.0, self@.1));
        }
        s
    }
}

pub enum Reply {
    Nothing,
    Packet(Packet),
    /// Special reply at the beginning of the protocol
    Plus,
}

/// The register reply: AF, BC, DE and HL as zeros, SP and PC in upper case
/// hex (low byte first), the rest zeros.
pub open spec fn registers_text(r: Register) -> Seq<char> {
    "0000000000000000"@ + hex2((r.sp % 256) as u8, true) + hex2((r.sp / 256) as u8, true) + hex2(
        (r.pc % 256) as u8,
        true,
    ) + hex2((r.pc / 256) as u8, true) + "0000000000000000000000000000"@
}

/// The reply text for the memory byte at `p`: RAM, sprite table and echo
/// RAM (0xA000 to 0xFEFF) and 0xFFFF read as zero.
pub open spec fn memory_byte_text(m: MemView, p: int) -> Seq<char> {
    if (0xA000 <= p < 0xFF00) || p >= 0xFFFF {
        seq!['0', '0']
    } else {
        match m.read(p as u16) {
            Ok(v) => hex2(v, false),
            Err(_) => Seq::<char>::empty(),
        }
    }
}

/// The reply text for `len` bytes of memory from `addr` on.
pub open spec fn memory_text(m: MemView, addr: int, len: nat) -> Seq<char>
    decreases len,
{
    if len == 0 {
        Seq::<char>::empty()
    } else {
        memory_text(m, addr, (len - 1) as nat) + memory_byte_text(m, addr + len - 1)
    }
}

/// The bytes `addr` to `addr + len` can be read for a reply: the range does
/// not overflow and every location that is read gives a value.
pub open spec fn range_readable(m: MemView, addr: int, len: int) -> bool {
    &&& addr + len <= usize::MAX
    &&& forall|p: int|
        addr <= p < addr + len && !((0xA000 <= p < 0xFF00) || p >= 0xFFFF) ==> m.read_defined(
            p as u16,
        ) && #[trigger] m.read(p as u16) is Ok
}

/// Whether the `length` bytes from `addr` on can be read for a reply.
pub fn memory_range_readable(mc: &MemoryController, addr: usize, length: usize) -> (r: bool)
    ensures
        r == range_readable(mc@, addr as int, length as int),
{
    if addr > usize::MAX - length {
        return false;
    }
    let end = addr + length;
    let stop = if end < 0xFFFF {
        end
    } else {
        0xFFFF
    };
    let mut p = addr;
    while p < stop
        invariant
            addr <= end,
            end == addr + length,
            stop <= end,
            stop <= 0xFFFF,
            addr <= p,
            p < stop ==> p <= 0xFFFF,
            forall|q: int|
                addr <= q < p && !((0xA000 <= q < 0xFF00) || q >= 0xFFFF) ==> mc@.read_defined(
                    q as u16,
                ) && #[trigger] mc@.read(q as u16) is Ok,
        decreases stop - p,
    {
        if p < 0xA000 || (p >= 0xFF00 && p < 0xFFFF) {
            let a = p as u16;
            if !mc.readable(a) {
                assert(!(mc@.read_defined(a) && mc@.read(a) is Ok));
                return false;
            }
            if mc.read(a).is_err() {
                return false;
            }
        }
        p = p + 1;
    }
    true
}

/// The reply to a command other than `+`: a packet (content and whether it
/// is acked) or an error.
pub open spec fn spec_reply(c: CommandView, r: Register, m: MemView) -> Result<(Seq<char>, bool), Seq<char>> {
    match c {
        CommandView::StopQuery => Ok(("S00"@, true)),
        CommandView::QSupported => Ok(("qSupported:hwbreak+;vContSupported+;QThreadEvents+"@, false)),
        CommandView::QC => Ok(("QC1"@, true)),
        // process already exists, gdb attached to it
        CommandView::QAttached => Ok(("1"@, true)),
        // no tracing going on
        CommandView::QTStatus => Ok((""@, true)),
        // no thread support
        CommandView::QFThreadInfo => Ok(("l"@, true)),
        CommandView::VContQ => Ok(("vcont;c;s;t"@, true)),
        CommandView::VMustReplyEmpty => Ok((""@, true)),
        // only one thread in soma, nothing to prepare. just ack
        CommandView::H => Ok(("OK"@, true)),
        CommandView::G => Ok((registers_text(r), true)),
        CommandView::M(a, l) => Ok((memory_text(m, a as int, l as nat), true)),
        CommandView::P => Ok(("00000000"@, true)),
        CommandView::Unknown(s) => Err("unkown command: Unknown("@ + str_debug_text(s) + ")"@),
        CommandView::Plus => Err(Seq::<char>::empty()),
    }
}

fn registers_packet(reg: &Register) -> (p: Packet)
    ensures
        p@ == (registers_text(*reg), true),
{
    let (sp0, sp1) = crate::bytes::u16_to_le(reg.sp);
    let (pc0, pc1) = crate::bytes::u16_to_le(reg.pc);
    //AF BC  DE  HL  SP    PC
    let mut s = String::from_str("0000000000000000");
    push_hex2(&mut s, sp0, true);
    push_hex2(&mut s, sp1, true);
    push_hex2(&mut s, pc0, true);
    push_hex2(&mut s, pc1, true);
    s.append("0000000000000000000000000000");
    Packet { content: s, prepend_ack: true }
}

/// The packet with the hex dump of the memory range.
pub fn read_memory(dmg: &DMG, range: MemoryRange) -> (p: Packet)
    requires
        range_readable(dmg.mc@, range.addr as int, range.length as int),
    ensures
        p@ == (memory_text(dmg.mc@, range.addr as int, range.length as nat), true),
{
    let mut result = String::new();
    let end = range.addr + range.length;
    let mut p = range.addr;
    while p < end
        invariant
            range.addr <= p <= end,
            end == range.addr + range.length,
            range_readable(dmg.mc@, range.addr as int, range.length as int),
            result@ == memory_text(dmg.mc@, range.addr as int, (p - range.addr) as nat),
        decreases end - p,
    {
        proof {
            reveal_strlit("00");
            assert(memory_text(dmg.mc@, range.addr as int, (p + 1 - range.addr) as nat) == memory_text(
                dmg.mc@,
                range.addr as int,
                (p - range.addr) as nat,
            ) + memory_byte_text(dmg.mc@, p as int));
        }
        if p >= 0xA000 && p < 0xFF00 {
            // RAM, sprite table and echo RAM not readable yet
            result.append("00");
        } else if p < 0xFFFF {
            assert(dmg.mc@.read(p as u16) is Ok);
            let byte = match dmg.mc.read(p as u16) {
                Ok(v) => v,
                Err(_) => 0,
            };
            push_hex2(&mut result, byte, false);
        } else {
            result.append("00");
        }
        p = p + 1;
    }
    Packet { content: result, prepend_ack: true }
}

/// Parses the next command of `input` and builds the reply to it; also
/// returns the input left to handle.
pub fn handle_next_command<'a>(input: &'a str, dmg: &DMG) -> (r: Result<(Reply, &'a str), String>)
    requires
        spec_parse_next_command(input@) matches Ok((Some(CommandView::M(a, l)), _)) ==> range_readable(
            dmg.mc@,
            a as int,
            l as int,
        ),
    ensures
        match (r, spec_parse_next_command(input@)) {
            (Err(e), Err(ev)) => e@ == ev,
            (Ok((Reply::Nothing, rest)), Ok((None, restv))) => rest@ == restv,
            (Ok((Reply::Plus, rest)), Ok((Some(CommandView::Plus), _))) => rest@ == Seq::<char>::empty(),
            (Ok((Reply::Packet(p), rest)), Ok((Some(cv), restv))) => !(cv is Plus) && spec_reply(
                cv,
                dmg.sm83.reg,
                dmg.mc@,
            ) == Ok::<(Seq<char>, bool), Seq<char>>(p@) && rest@ == restv,
            (Err(e), Ok((Some(cv), _))) => !(cv is Plus) && spec_reply(cv, dmg.sm83.reg, dmg.mc@)
                == Err::<(Seq<char>, bool), Seq<char>>(e@),
            _ => false,
        },
{
    let (may_cmd, remaining_input) = match parse_next_command(input) {
        Ok(x) => x,
        Err(e) => return Err(e),
    };
    if let Some(cmd) = may_cmd {
        let packet = match cmd {
            Command::Plus => {
                proof {
                    reveal_strlit("");
                }
                return Ok((Reply::Plus, ""));
            },
            Command::StopQuery => Packet::ack("S00"),
            Command::QSupported(_) => Packet::nack("qSupported:hwbreak+;vContSupported+;QThreadEvents+"),
            Command::QC => Packet::ack("QC1"),
            Command::QAttached => Packet::ack("1"),
            Command::QTStatus => Packet::ack(""),
            Command::QFThreadInfo => Packet::ack("l"),
            Command::VContQ => Packet::ack("vcont;c;s;t"),
            Command::VMustReplyEmpty => Packet::ack(""),
            Command::H(_) => Packet::ack("OK"),
            Command::G => registers_packet(&dmg.sm83.reg),
            Command::M(range) => read_memory(dmg, range),
            Command::P => Packet::ack("00000000"),
            Command::Unknown(name) => {
                let mut msg = String::from_str("unkown command: Unknown(");
                let quoted = str_debug(name.as_str());
                msg.append(quoted.as_str());
                msg.append(")");
                return Err(msg);
            },
        };
        Ok((Reply::Packet(packet), remaining_input))
    } else {
        Ok((Reply::Nothing, remaining_input))
    }
}

/// How GDB answered the previous reply.
#[derive(Debug, PartialEq, Eq, Structural, Clone, Copy)]
pub enum AckKind {
    /// `+`
    Ack,
    /// `-`
    Nack,
    /// anything else
    Missing,
}

/// What the server does with what it read from GDB.
pub enum ServerAction {
    /// A reply was pending: the read answers it.
    Answered(AckKind),
    /// Send the text; `true` when a reply is pending afterwards (a packet
    /// was sent), `false` when not (the `+` that opens the protocol).
    Send(String, bool),
    /// The packet is not complete: nothing is sent.
    Incomplete,
}

/// How GDB answered a reply, from the text it sent back.
pub open spec fn spec_ack_kind(input: Seq<char>) -> AckKind {
    if input == "+"@ {
        AckKind::Ack
    } else if input == "-"@ {
        AckKind::Nack
    } else {
        AckKind::Missing
    }
}

/// One round of the server: when a reply is pending, `input` answers it;
/// otherwise the next command of `input` is handled and its reply, if any,
/// is sent as packet text.
pub fn server_step(pending: bool, input: &str, dmg: &DMG) -> (r: Result<ServerAction, String>)
    requires
        !pending ==> (spec_parse_next_command(input@) matches Ok((Some(CommandView::M(a, l)), _))
            ==> range_readable(dmg.mc@, a as int, l as int)),
    ensures
        pending ==> (r matches Ok(ServerAction::Answered(k)) && k == spec_ack_kind(input@)),
        !pending ==> match (r, spec_parse_next_command(input@)) {
            (Err(e), Err(ev)) => e@ == ev,
            (Ok(ServerAction::Incomplete), Ok((None, _))) => true,
            (Ok(ServerAction::Send(t, after)), Ok((Some(CommandView::Plus), _))) => t@ == "+"@
                && !after,
            (Ok(ServerAction::Send(t, after)), Ok((Some(cv), _))) => !(cv is Plus) && after && (
            spec_reply(cv, dmg.sm83.reg, dmg.mc@) matches Ok((content, ack)) && t@ == packet_text(
                content,
                ack,
            )),
            (Err(e), Ok((Some(cv), _))) => !(cv is Plus) && spec_reply(cv, dmg.sm83.reg, dmg.mc@)
                == Err::<(Seq<char>, bool), Seq<char>>(e@),
            _ => false,
        },
{
    if pending {
        let kind = if str_eq(input, "+") {
            AckKind::Ack
        } else if str_eq(input, "-") {
            AckKind::Nack
        } else {
            AckKind::Missing
        };
        return Ok(ServerAction::Answered(kind));
    }
    match handle_next_command(input, dmg) {
        Err(e) => Err(e),
        Ok((Reply::Packet(p), _)) => Ok(ServerAction::Send(p.packet_string(), true)),
        Ok((Reply::Plus, _)) => {
            proof {
                reveal_strlit("+");
            }
            Ok(ServerAction::Send(String::from_str("+"), false))
        },
        Ok((Reply::Nothing, _)) => Ok(ServerAction::Incomplete),
    }
}

} // verus!

verus! {

/// The reply to a memory read gives, for each address below 0xA000 and in
/// the I/O page 0xFF00 to 0xFFFE, the byte the memory holds there in two
/// lower case hex digits; RAM, the sprite table, echo RAM and 0xFFFF read
/// as `00`.
pub proof fn law_memory_reply_reads_memory(m: MemView, p: int)
    requires
        0 <= p,
    ensures
        (p < 0xA000 || 0xFF00 <= p < 0xFFFF) && m.read(p as u16) is Ok ==> memory_byte_text(m, p)
            == hex2(m.read(p as u16)->Ok_0, false),
        (0xA000 <= p < 0xFF00 || p == 0xFFFF) ==> memory_byte_text(m, p) == seq!['0', '0'],
{
}

} // verus!

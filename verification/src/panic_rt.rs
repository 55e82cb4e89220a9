//! The user-mode panic runtime: which message a panic reports, how the
//! report reads, and the code the process exits with.
use vstd::prelude::*;
use crate::numfmt::{format_decimal, radix_digits};
use vstd::string::StringExecFns;

verus! {

/// The exit code of a process that panicked.
pub const PANIC_EXIT_CODE: u32 = 0xFFFF_FFFF;

/// What a panic carries, as far as the report is concerned.
pub enum PanicPayload {
    /// Formatting arguments, already rendered.
    Formatted(String),
    /// A plain string.
    Text(String),
    /// Anything else; holds the name of the payload's type.
    Opaque(String),
}

/// What the runtime writes to the kernel log before the process exits.
pub struct PanicReport {
    /// The first log line: location and message.
    pub message: String,
    /// The start of the second log line, which the backtrace completes.
    pub backtrace_prefix: String,
    /// The code the process exits with.
    pub exit_code: u32,
}

/// `PANIC: <file>:<line>: <msg>`
pub open spec fn panic_line(file: Seq<char>, line: u32, msg: Seq<char>) -> Seq<char> {
    seq!['P', 'A', 'N', 'I', 'C', ':', ' '] + file + seq![':'] + radix_digits(line as nat, 10) + seq![
        ':',
        ' ',
    ] + msg
}

/// `- <file> Backtrace: `
pub open spec fn backtrace_prefix(file: Seq<char>) -> Seq<char> {
    seq!['-', ' '] + file + seq![' ', 'B', 'a', 'c', 'k', 't', 'r', 'a', 'c', 'e', ':', ' ']
}

/// The message a panic with `payload` reports.
pub open spec fn payload_message(payload: PanicPayload) -> Seq<char> {
    match payload {
        PanicPayload::Formatted(s) => s@,
        PanicPayload::Text(s) => s@,
        PanicPayload::Opaque(ty) => seq![
            'b',
            'e',
            'g',
            'i',
            'n',
            '_',
            'u',
            'n',
            'w',
            'i',
            'n',
            'd',
            '<',
        ] + ty@ + seq!['>'],
    }
}

/// The report of a panic with message `msg` at `file`, `line`.
pub open spec fn is_report(r: PanicReport, file: Seq<char>, line: u32, msg: Seq<char>) -> bool {
    &&& r.message@ == panic_line(file, line, msg)
    &&& r.backtrace_prefix@ == backtrace_prefix(file)
    &&& r.exit_code == PANIC_EXIT_CODE
}

/// The report of a panic with the formatted message `msg` raised at
/// `file_line`; the process then exits with `PANIC_EXIT_CODE`.
pub fn begin_panic_fmt(msg: &str, file_line: (&str, u32)) -> (r: PanicReport)
    ensures
        is_report(r, file_line.0@, file_line.1, msg@),
{
    let (file, line) = file_line;
    proof {
        reveal_strlit("PANIC: ");
        reveal_strlit(":");
        reveal_strlit(": ");
        reveal_strlit("- ");
        reveal_strlit(" Backtrace: ");
    }
    let mut message = String::from_str("PANIC: ");
    message.append(file);
    message.append(":");
    let digits = format_decimal(line as u64);
    message.append(digits.as_str());
    message.append(": ");
    message.append(msg);
    let mut prefix = String::from_str("- ");
    prefix.append(file);
    prefix.append(" Backtrace: ");
    assert(message@ =~= panic_line(file@, line, msg@));
    assert(prefix@ =~= backtrace_prefix(file@));
    PanicReport { message, backtrace_prefix: prefix, exit_code: PANIC_EXIT_CODE }
}

/// The report of a panic carrying `payload`: formatted arguments and plain
/// strings are reported as they are, anything else by its type name.
pub fn begin_unwind(payload: PanicPayload, file_line: (&str, u32)) -> (r: PanicReport)
    ensures
        is_report(r, file_line.0@, file_line.1, payload_message(payload)),
{
    match payload {
        PanicPayload::Formatted(s) => begin_panic_fmt(s.as_str(), file_line),
        PanicPayload::Text(s) => begin_panic_fmt(s.as_str(), file_line),
        PanicPayload::Opaque(ty) => {
            proof {
                reveal_strlit("begin_unwind<");
                reveal_strlit(">");
            }
            let mut text = String::from_str("begin_unwind<");
            text.append(ty.as_str());
            text.append(">");
            assert(text@ =~= payload_message(PanicPayload::Opaque(ty)));
            begin_panic_fmt(text.as_str(), file_line)
        },
    }
}

/// The report of a panic carrying `payload`; the same as `begin_unwind`.
pub fn begin_panic(payload: PanicPayload, file_line: (&str, u32)) -> (r: PanicReport)
    ensures
        is_report(r, file_line.0@, file_line.1, payload_message(payload)),
{
    begin_unwind(payload, file_line)
}

/// The report of a panic with formatted message `msg`; the same as `begin_panic_fmt`.
pub fn begin_unwind_fmt(msg: &str, file_line: (&str, u32)) -> (r: PanicReport)
    ensures
        is_report(r, file_line.0@, file_line.1, msg@),
{
    begin_panic_fmt(msg, file_line)
}

/// The report of a panic raised by the compiler's panic entry point, whose
/// line number arrives as a `usize` and is cut to its low 32 bits.
pub fn rust_begin_panic(msg: &str, file: &str, line: usize) -> (r: PanicReport)
    ensures
        is_report(r, file@, line as u32, msg@),
{
    begin_panic_fmt(msg, (file, line as u32))
}

/// Every panic report names the location first, after `PANIC: `, and ends
/// the process with `PANIC_EXIT_CODE`.
pub proof fn law_report_shape(r: PanicReport, file: Seq<char>, line: u32, msg: Seq<char>)
    requires
        is_report(r, file, line, msg),
    ensures
        r.message@.subrange(0, 7) == seq!['P', 'A', 'N', 'I', 'C', ':', ' '],
        r.message@.subrange(7, 7 + file.len() as int) == file,
        r.message@.subrange(r.message@.len() - msg.len(), r.message@.len() as int) == msg,
        r.exit_code == PANIC_EXIT_CODE,
{
    assert(r.message@.subrange(0, 7) =~= seq!['P', 'A', 'N', 'I', 'C', ':', ' ']);
    assert(r.message@.subrange(7, 7 + file.len() as int) =~= file);
    assert(r.message@.subrange(r.message@.len() - msg.len(), r.message@.len() as int) =~= msg);
}

/// Whether the page at `addr` is mapped; every address counts as mapped.
pub fn is_reserved(addr: usize) -> (r: bool)
    ensures
        r,
{
    true
}

} // verus!

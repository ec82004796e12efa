//! The progress reporter: the texts that tell how a run proceeds.

use crate::date::DateKey;
use crate::digits::{decimal, decimal_text, digits_in, digits_of, lemma_decimal_is_digits};
use crate::record::LineError;
use crate::router::Fault;
use vstd::prelude::*;
use vstd::string::*;

verus! {

/// The text that `humantime` writes for a duration of `secs` seconds and
/// `nanos` nanoseconds.
pub uninterp spec fn humantime_text(secs: u64, nanos: u32) -> Seq<char>;

/// Calls `humantime::format_duration` on the duration made of the two
/// counts and takes its text. The contract gives the text the name
/// [`humantime_text`]. The nanoseconds stay under a second, so that making
/// the duration carries nothing over.
#[verifier::external_body]
fn write_duration(secs: u64, nanos: u32) -> (text: String)
    requires
        nanos < 1_000_000_000,
    ensures
        text@ == humantime_text(secs, nanos),
{
    humantime::format_duration(std::time::Duration::new(secs, nanos)).to_string()
}

/// The locale of `num_format` that the caller has read from the system.
#[verifier::external_type_specification]
#[verifier::external_body]
pub struct ExSystemLocale(num_format::SystemLocale);

/// Calls `num_format::ToFormattedString::to_formatted_string` with a system
/// locale. How the digits are grouped is the locale's affair: the contract
/// claims nothing of the text.
#[verifier::external_body]
fn write_grouped(count: u64, locale: &num_format::SystemLocale) -> (text: String) {
    num_format::ToFormattedString::to_formatted_string(&count, locale)
}

/// An elapsed time: whole seconds and the nanoseconds of the second begun.
#[derive(Clone, Copy, Debug, PartialEq, Eq, Structural)]
pub struct Elapsed {
    pub secs: u64,
    pub nanos: u32,
}

impl Elapsed {
    /// The nanoseconds stay under one second.
    pub open spec fn wf(&self) -> bool {
        self.nanos < 1_000_000_000
    }

    /// The elapsed time as it is shown.
    pub open spec fn text(&self) -> Seq<char> {
        humantime_text(self.secs, self.nanos)
    }

    /// Writes the elapsed time for a reader.
    pub fn to_text(&self) -> (text: String)
        requires
            self.wf(),
        ensures
            text@ == self.text(),
    {
        write_duration(self.secs, self.nanos)
    }
}

/// The message for a day that is complete.
pub open spec fn progress_text(date: Seq<char>, count: Seq<char>, took: Seq<char>) -> Seq<char> {
    "Completed processing "@ + date + ".  "@ + count + " records. [Took: "@ + took + "]"@
}

/// The message that closes a run.
pub open spec fn summary_text(lines: nat, took: Seq<char>) -> Seq<char> {
    "Finished processing "@ + decimal_text(lines) + " lines in "@ + took + "."@
}

/// What is said of a fault.
pub open spec fn fault_text(fault: Fault) -> Seq<char> {
    match fault {
        Fault::Line(LineError::Decode) => "Could not parse line"@,
        Fault::Line(LineError::NotAnObject) => "Line is not a JSON object"@,
        Fault::Line(LineError::MissingField) => "No `asctime` field found in line"@,
        Fault::Line(LineError::BadFormat) => "Could not parse timestamp"@,
        Fault::Write => "Could not write line to file"@,
    }
}

/// The message for a line that is diverted.
pub open spec fn diverted_text(fault: Fault, number: nat, line: Seq<char>) -> Seq<char> {
    "Error "@ + fault_text(fault) + ". Error processing line "@ + decimal_text(number) + ": `"@
        + line + "`"@
}

/// Composes the message for a day that is complete from the day, the count
/// and the time it took, each as it is to be shown.
pub fn progress_message(date: &str, count: &str, took: &str) -> (text: String)
    ensures
        text@ == progress_text(date@, count@, took@),
{
    let mut text = String::from_str("Completed processing ");
    text.append(date);
    text.append(".  ");
    text.append(count);
    text.append(" records. [Took: ");
    text.append(took);
    text.append("]");
    text
}

/// The message for a day that is complete: the day, the number of its
/// records and the time it took. The count is shown as the locale groups
/// it, wherever that text holds the digits of the count and no other; where
/// it does not, the count is shown in plain digits.
pub fn report_progress(
    date: &DateKey,
    count: u64,
    locale: &num_format::SystemLocale,
    took: &Elapsed,
) -> (text: String)
    requires
        date.wf(),
        took.wf(),
    ensures
        exists|shown: Seq<char>|
            {
                &&& text@ == #[trigger] progress_text(date.text(), shown, took.text())
                &&& digits_of(shown) == decimal_text(count as nat)
            },
{
    let day = date.to_text();
    let grouped = write_grouped(count, locale);
    let plain = decimal(count);
    let shown = if digits_in(grouped.as_str()) == plain {
        grouped
    } else {
        proof {
            lemma_decimal_is_digits(count as nat);
        }
        plain
    };
    let elapsed = took.to_text();
    progress_message(day.as_str(), shown.as_str(), elapsed.as_str())
}

/// The message that closes a run: the number of lines routed and the time
/// the run took.
pub fn report_summary(lines: u64, took: &Elapsed) -> (text: String)
    requires
        took.wf(),
    ensures
        text@ == summary_text(lines as nat, took.text()),
{
    let mut text = String::from_str("Finished processing ");
    let digits = decimal(lines);
    text.append(digits.as_str());
    text.append(" lines in ");
    let elapsed = took.to_text();
    text.append(elapsed.as_str());
    text.append(".");
    text
}

/// Names a fault in words.
pub fn describe(fault: Fault) -> (text: String)
    ensures
        text@ == fault_text(fault),
{
    match fault {
        Fault::Line(LineError::Decode) => String::from_str("Could not parse line"),
        Fault::Line(LineError::NotAnObject) => String::from_str("Line is not a JSON object"),
        Fault::Line(LineError::MissingField) => String::from_str(
            "No `asctime` field found in line",
        ),
        Fault::Line(LineError::BadFormat) => String::from_str("Could not parse timestamp"),
        Fault::Write => String::from_str("Could not write line to file"),
    }
}

/// The message for a line that is diverted to the error target: the fault,
/// the number of lines routed before it, and the line itself.
pub fn report_diverted(fault: Fault, number: u64, line: &str) -> (text: String)
    ensures
        text@ == diverted_text(fault, number as nat, line@),
{
    let mut text = String::from_str("Error ");
    let words = describe(fault);
    text.append(words.as_str());
    text.append(". Error processing line ");
    let digits = decimal(number);
    text.append(digits.as_str());
    text.append(": `");
    text.append(line);
    text.append("`");
    text
}

} // verus!

//! Counters of what became of the routes.

use vstd::prelude::*;
use vstd::string::StringExecFns;

use crate::text::contains_text;
use crate::text::lowered;
use crate::text::occurs;
use crate::text::push_signed;
use crate::text::same_text;
use crate::text::signed_decimal;
use crate::text::to_lower;

verus! {

/// How many routes were added, were there already, or failed, by kind of error.
#[derive(Debug, Clone, Copy, PartialEq, Eq, Structural)]
pub struct Stats {
    pub success: i64,
    pub already_exist: i64,
    pub network_unreachable: i64,
    pub operation_not_permitted: i64,
    pub invalid_argument: i64,
    pub no_route_to_host: i64,
    pub unknown_error: i64,
}

/// The number behind `n`; the largest is followed by the smallest.
pub open spec fn next(n: i64) -> i64 {
    if n == i64::MAX {
        i64::MIN
    } else {
        (n + 1) as i64
    }
}

/// Counters that are all zero.
pub open spec fn no_counts() -> Stats {
    Stats {
        success: 0,
        already_exist: 0,
        network_unreachable: 0,
        operation_not_permitted: 0,
        invalid_argument: 0,
        no_route_to_host: 0,
        unknown_error: 0,
    }
}

/// The counters after a route was added.
pub open spec fn with_success(s: Stats) -> Stats {
    Stats { success: next(s.success), ..s }
}

/// The counters after a route was there already.
pub open spec fn with_existing(s: Stats) -> Stats {
    Stats { already_exist: next(s.already_exist), ..s }
}

/// The counters after an error of the given kind.
pub open spec fn with_error(s: Stats, kind: Seq<char>) -> Stats {
    if kind == "network_unreachable"@ {
        Stats { network_unreachable: next(s.network_unreachable), ..s }
    } else if kind == "operation_not_permitted"@ {
        Stats { operation_not_permitted: next(s.operation_not_permitted), ..s }
    } else if kind == "invalid_argument"@ {
        Stats { invalid_argument: next(s.invalid_argument), ..s }
    } else if kind == "no_route_to_host"@ {
        Stats { no_route_to_host: next(s.no_route_to_host), ..s }
    } else {
        Stats { unknown_error: next(s.unknown_error), ..s }
    }
}

/// The number of routes that were processed.
pub open spec fn total(s: Stats) -> int {
    s.success + s.already_exist + s.network_unreachable + s.operation_not_permitted
        + s.invalid_argument + s.no_route_to_host + s.unknown_error
}

/// Whether every sum of leading error counters fits in 64 bits, and the total
/// does too.
pub open spec fn sums_fit(s: Stats) -> bool {
    let a = s.already_exist + s.network_unreachable;
    let b = a + s.operation_not_permitted;
    let c = b + s.invalid_argument;
    let d = c + s.no_route_to_host;
    let e = d + s.unknown_error;
    &&& i64::MIN <= a <= i64::MAX
    &&& i64::MIN <= b <= i64::MAX
    &&& i64::MIN <= c <= i64::MAX
    &&& i64::MIN <= d <= i64::MAX
    &&& i64::MIN <= e <= i64::MAX
    &&& i64::MIN <= total(s) <= i64::MAX
}

/// A line with a label and a counter.
pub open spec fn counter_line(label: Seq<char>, n: int) -> Seq<char> {
    label + signed_decimal(n) + "\n"@
}

/// The line of an error counter, which appears only where the counter is positive.
pub open spec fn error_line(label: Seq<char>, n: i64) -> Seq<char> {
    if n > 0 {
        counter_line(label, n as int)
    } else {
        Seq::empty()
    }
}

/// The report of the counters.
pub open spec fn report(s: Stats) -> Seq<char> {
    "\n========== Statistics ==========\n"@ + counter_line("Successfully added: "@, s.success as int)
        + counter_line("Already existed (skipped): "@, s.already_exist as int) + error_line(
        "Network unreachable: "@,
        s.network_unreachable,
    ) + error_line("Operation not permitted: "@, s.operation_not_permitted) + error_line(
        "Invalid argument: "@,
        s.invalid_argument,
    ) + error_line("No route to host: "@, s.no_route_to_host) + error_line(
        "Unknown errors: "@,
        s.unknown_error,
    ) + counter_line("Total processed: "@, total(s)) + "================================"@
}

/// One more, without a panic at the largest number.
fn bump(n: i64) -> (r: i64)
    ensures
        r == next(n),
{
    if n == i64::MAX {
        i64::MIN
    } else {
        n + 1
    }
}

/// Appends a line with a label and a counter.
fn push_counter(out: &mut String, label: &str, n: i64)
    ensures
        final(out)@ == old(out)@ + counter_line(label@, n as int),
{
    out.append(label);
    push_signed(out, n);
    out.append("\n");
    assert(out@ =~= old(out)@ + counter_line(label@, n as int));
}

/// Appends the line of an error counter.
fn push_error(out: &mut String, label: &str, n: i64)
    ensures
        final(out)@ == old(out)@ + error_line(label@, n),
{
    if n > 0 {
        push_counter(out, label, n);
    } else {
        assert(out@ =~= old(out)@ + error_line(label@, n));
    }
}

impl Stats {
    /// Counters that are all zero.
    pub fn new() -> (r: Self)
        ensures
            r == no_counts(),
    {
        Self::new_with_filename("disabled".to_string())
    }

    /// Counters that are all zero. The file name is not used.
    pub fn new_with_filename(_filename: String) -> (r: Self)
        ensures
            r == no_counts(),
    {
        Stats {
            success: 0,
            already_exist: 0,
            network_unreachable: 0,
            operation_not_permitted: 0,
            invalid_argument: 0,
            no_route_to_host: 0,
            unknown_error: 0,
        }
    }

    /// Counts a route that was added.
    pub fn add_success(&mut self)
        ensures
            *final(self) == with_success(*old(self)),
    {
        self.success = bump(self.success);
    }

    /// Counts a route that was there already. The route itself is not kept.
    pub fn add_already_exist(&mut self, _route: String)
        ensures
            *final(self) == with_existing(*old(self)),
    {
        self.already_exist = bump(self.already_exist);
    }

    /// Counts an error of the given kind.
    pub fn add_error(&mut self, err_type: &str)
        ensures
            *final(self) == with_error(*old(self), err_type@),
    {
        if same_text(err_type, "network_unreachable") {
            self.network_unreachable = bump(self.network_unreachable);
        } else if same_text(err_type, "operation_not_permitted") {
            self.operation_not_permitted = bump(self.operation_not_permitted);
        } else if same_text(err_type, "invalid_argument") {
            self.invalid_argument = bump(self.invalid_argument);
        } else if same_text(err_type, "no_route_to_host") {
            self.no_route_to_host = bump(self.no_route_to_host);
        } else {
            self.unknown_error = bump(self.unknown_error);
        }
    }

    /// Ends the counting. Nothing is held that would have to be released.
    pub fn shutdown(&mut self)
        ensures
            *final(self) == *old(self),
    {
    }

    /// The report of the counters.
    pub fn print_stats(&self) -> (r: String)
        requires
            sums_fit(*self),
        ensures
            r@ == report(*self),
    {
        let mut msg = String::new();
        msg.append("\n========== Statistics ==========\n");
        assert(msg@ =~= "\n========== Statistics ==========\n"@);
        push_counter(&mut msg, "Successfully added: ", self.success);
        push_counter(&mut msg, "Already existed (skipped): ", self.already_exist);
        push_error(&mut msg, "Network unreachable: ", self.network_unreachable);
        push_error(&mut msg, "Operation not permitted: ", self.operation_not_permitted);
        push_error(&mut msg, "Invalid argument: ", self.invalid_argument);
        push_error(&mut msg, "No route to host: ", self.no_route_to_host);
        push_error(&mut msg, "Unknown errors: ", self.unknown_error);
        let total_errors: i64 = self.already_exist + self.network_unreachable
            + self.operation_not_permitted + self.invalid_argument + self.no_route_to_host
            + self.unknown_error;
        push_counter(&mut msg, "Total processed: ", self.success + total_errors);
        msg.append("================================");
        msg
    }
}

/// The kind of error that a message in small letters tells of.
pub open spec fn error_kind(lower: Seq<char>) -> Seq<char> {
    if occurs(lower, "file exists"@) {
        "file_exists"@
    } else if occurs(lower, "network is unreachable"@) {
        "network_unreachable"@
    } else if occurs(lower, "no such device"@) {
        "no_such_device"@
    } else if occurs(lower, "operation not permitted"@) {
        "operation_not_permitted"@
    } else if occurs(lower, "invalid argument"@) {
        "invalid_argument"@
    } else if occurs(lower, "no route to host"@) {
        "no_route_to_host"@
    } else {
        "unknown"@
    }
}

/// The kind of error that a message in small letters tells of.
pub fn classify_lower(lower: &str) -> (r: &'static str)
    ensures
        r@ == error_kind(lower@),
{
    if contains_text(lower, "file exists") {
        "file_exists"
    } else if contains_text(lower, "network is unreachable") {
        "network_unreachable"
    } else if contains_text(lower, "no such device") {
        "no_such_device"
    } else if contains_text(lower, "operation not permitted") {
        "operation_not_permitted"
    } else if contains_text(lower, "invalid argument") {
        "invalid_argument"
    } else if contains_text(lower, "no route to host") {
        "no_route_to_host"
    } else {
        "unknown"
    }
}

/// Classify error from error message string.
pub fn classify_error_str(err: &str) -> (r: &'static str)
    ensures
        r@ == error_kind(lowered(err@)),
{
    let lower = to_lower(err);
    classify_lower(lower.as_str())
}

/// Every counted route adds one to the total, as long as its counter has room.
pub proof fn law_every_route_is_counted(s: Stats, kind: Seq<char>)
    requires
        s.success < i64::MAX,
        s.already_exist < i64::MAX,
        s.network_unreachable < i64::MAX,
        s.operation_not_permitted < i64::MAX,
        s.invalid_argument < i64::MAX,
        s.no_route_to_host < i64::MAX,
        s.unknown_error < i64::MAX,
    ensures
        total(Stats { success: next(s.success), ..s }) == total(s) + 1,
        total(Stats { already_exist: next(s.already_exist), ..s }) == total(s) + 1,
        total(with_error(s, kind)) == total(s) + 1,
        with_error(s, kind).success == s.success,
        with_error(s, kind).already_exist == s.already_exist,
{
}

} // verus!

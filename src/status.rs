use vstd::prelude::*;

use crate::processes::ProcessStatus;
use crate::registry::AppState;

verus! {

pub open spec fn digit_char(d: nat) -> char {
    if d == 0 { '0' }
    else if d == 1 { '1' }
    else if d == 2 { '2' }
    else if d == 3 { '3' }
    else if d == 4 { '4' }
    else if d == 5 { '5' }
    else if d == 6 { '6' }
    else if d == 7 { '7' }
    else if d == 8 { '8' }
    else { '9' }
}

/// The decimal digits of `n`, without leading zeros.
pub open spec fn decimal(n: nat) -> Seq<char>
    decreases n,
{
    if n < 10 {
        seq![digit_char(n)]
    } else {
        decimal(n / 10) + seq![digit_char(n % 10)]
    }
}

fn digit_str(d: u32) -> (r: &'static str)
    requires
        d < 10,
    ensures
        r@ == seq![digit_char(d as nat)],
{
    proof {
        reveal_strlit("0");
        reveal_strlit("1");
        reveal_strlit("2");
        reveal_strlit("3");
        reveal_strlit("4");
        reveal_strlit("5");
        reveal_strlit("6");
        reveal_strlit("7");
        reveal_strlit("8");
        reveal_strlit("9");
    }
    let r = if d == 0 { "0" }
    else if d == 1 { "1" }
    else if d == 2 { "2" }
    else if d == 3 { "3" }
    else if d == 4 { "4" }
    else if d == 5 { "5" }
    else if d == 6 { "6" }
    else if d == 7 { "7" }
    else if d == 8 { "8" }
    else { "9" };
    assert(r@ =~= seq![digit_char(d as nat)]);
    r
}

/// `n` written in decimal.
pub fn decimal_string(n: u32) -> (r: String)
    ensures
        r@ == decimal(n as nat),
    decreases n,
{
    if n < 10 {
        String::from_str(digit_str(n))
    } else {
        let mut s = decimal_string(n / 10);
        s.append(digit_str(n % 10));
        s
    }
}

pub open spec fn status_label(s: ProcessStatus) -> Seq<char> {
    match s {
        ProcessStatus::Initialized => "Initialized"@,
        ProcessStatus::Started => "Started"@,
        ProcessStatus::Starting => "Starting"@,
        ProcessStatus::Paused => "Paused"@,
        ProcessStatus::Pausing => "Pausing"@,
        ProcessStatus::Error => "Error"@,
        ProcessStatus::NotFound => "Not Found"@,
    }
}

impl ProcessStatus {
    /// The name shown for this status.
    pub fn label(&self) -> (r: &'static str)
        ensures
            r@ == status_label(*self),
    {
        match self {
            ProcessStatus::Initialized => "Initialized",
            ProcessStatus::Started => "Started",
            ProcessStatus::Starting => "Starting",
            ProcessStatus::Paused => "Paused",
            ProcessStatus::Pausing => "Pausing",
            ProcessStatus::Error => "Error",
            ProcessStatus::NotFound => "Not Found",
        }
    }
}

/// One line of the status listing: `<id>. <title> - <status>`.
pub open spec fn status_line(id: u32, title: Seq<char>, s: ProcessStatus) -> Seq<char> {
    decimal(id as nat) + ". "@ + title + " - "@ + status_label(s) + "\n"@
}

/// The lines of the first `n` processes of `app`, whose statuses are `sts`.
pub open spec fn status_lines(app: AppState, sts: Seq<ProcessStatus>, n: nat) -> Seq<char>
    decreases n,
{
    if n == 0 || n > app.processes@.len() {
        Seq::empty()
    } else {
        status_lines(app, sts, (n - 1) as nat) + status_line(
            app.processes@[n - 1].id,
            app.processes@[n - 1].ecosystem.title@,
            sts[n - 1],
        )
    }
}

impl AppState {
    /// The status listing of every known process; `statuses` gives their
    /// current statuses, in the order of the table.
    pub fn all_status(&self, statuses: &Vec<ProcessStatus>) -> (r: String)
        requires
            statuses@.len() == self.processes@.len(),
        ensures
            r@ == "Status of processes:\n"@ + status_lines(*self, statuses@, self.processes@.len() as nat),
    {
        let mut out = String::from_str("Status of processes:\n");
        let mut i: usize = 0;
        while i < self.processes.len()
            invariant
                i <= self.processes@.len(),
                statuses@.len() == self.processes@.len(),
                out@ == "Status of processes:\n"@ + status_lines(*self, statuses@, i as nat),
            decreases self.processes.len() - i,
        {
            let p = &self.processes[i];
            out.append(decimal_string(p.id).as_str());
            out.append(". ");
            out.append(p.ecosystem.title.as_str());
            out.append(" - ");
            out.append(statuses[i].label());
            out.append("\n");
            assert(out@ =~= "Status of processes:\n"@ + status_lines(*self, statuses@, (i + 1) as nat));
            i = i + 1;
        }
        out
    }
}

} // verus!

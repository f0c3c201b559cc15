//! Per-batch diagnostic records and fatal-error reporting, with a verified
//! decimal rendering of the numbers involved.

use vstd::prelude::*;
use vstd::string::StringExecFns;

verus! {

/// The decimal digit character for `d`, for `d < 10`.
pub open spec fn dec_digit(d: nat) -> char {
    if d == 0 {
        '0'
    } else if d == 1 {
        '1'
    } else if d == 2 {
        '2'
    } else if d == 3 {
        '3'
    } else if d == 4 {
        '4'
    } else if d == 5 {
        '5'
    } else if d == 6 {
        '6'
    } else if d == 7 {
        '7'
    } else if d == 8 {
        '8'
    } else {
        '9'
    }
}

/// The decimal representation of `n`, most significant digit first, with no
/// leading zeros (a single `'0'` for zero).
pub open spec fn dec_rep(n: nat) -> Seq<char>
    decreases n,
{
    if n < 10 {
        seq![dec_digit(n)]
    } else {
        dec_rep(n / 10).push(dec_digit(n % 10))
    }
}

fn digit_str(d: usize) -> (s: &'static str)
    requires
        d < 10,
    ensures
        s@ == seq![dec_digit(d as nat)],
{
    if d == 0 {
        proof {
            reveal_strlit("0");
            assert("0"@ =~= seq![dec_digit(0)]);
        }
        "0"
    } else if d == 1 {
        proof {
            reveal_strlit("1");
            assert("1"@ =~= seq![dec_digit(1)]);
        }
        "1"
    } else if d == 2 {
        proof {
            reveal_strlit("2");
            assert("2"@ =~= seq![dec_digit(2)]);
        }
        "2"
    } else if d == 3 {
        proof {
            reveal_strlit("3");
            assert("3"@ =~= seq![dec_digit(3)]);
        }
        "3"
    } else if d == 4 {
        proof {
            reveal_strlit("4");
            assert("4"@ =~= seq![dec_digit(4)]);
        }
        "4"
    } else if d == 5 {
        proof {
            reveal_strlit("5");
            assert("5"@ =~= seq![dec_digit(5)]);
        }
        "5"
    } else if d == 6 {
        proof {
            reveal_strlit("6");
            assert("6"@ =~= seq![dec_digit(6)]);
        }
        "6"
    } else if d == 7 {
        proof {
            reveal_strlit("7");
            assert("7"@ =~= seq![dec_digit(7)]);
        }
        "7"
    } else if d == 8 {
        proof {
            reveal_strlit("8");
            assert("8"@ =~= seq![dec_digit(8)]);
        }
        "8"
    } else {
        proof {
            reveal_strlit("9");
            assert("9"@ =~= seq![dec_digit(9)]);
        }
        "9"
    }
}

/// Render `n` in decimal, exactly as [`dec_rep`] describes.
pub fn fmt_usize(n: usize) -> (s: String)
    ensures
        s@ == dec_rep(n as nat),
    decreases n,
{
    if n < 10 {
        String::from_str(digit_str(n))
    } else {
        let mut s = fmt_usize(n / 10);
        s.append(digit_str(n % 10));
        proof {
            assert(dec_rep((n / 10) as nat) + seq![dec_digit((n % 10) as nat)] =~= dec_rep(
                n as nat,
            ));
        }
        s
    }
}

/// The recorded result of delivering one batch: its index in the run, its
/// byte size (sum of line lengths), and either the HTTP status code of the
/// response or the transport failure that ended the run.
pub struct DeliveryOutcome {
    pub index: usize,
    pub size: usize,
    pub status: Option<u16>,
}

/// The status part of a diagnostic record.
pub open spec fn status_text(status: Option<u16>) -> Seq<char> {
    match status {
        Some(code) => dec_rep(code as nat),
        None => "transport failure"@,
    }
}

/// One diagnostic record, as printed for the operator.
pub open spec fn report_line_of(index: nat, size: nat, status: Option<u16>) -> Seq<char> {
    "request:"@ + dec_rep(index) + " size:"@ + dec_rep(size) + " status:"@ + status_text(status)
}

impl DeliveryOutcome {
    /// Render the record's diagnostic line.
    pub fn report_line(&self) -> (s: String)
        ensures
            s@ == report_line_of(self.index as nat, self.size as nat, self.status),
    {
        let mut s = String::from_str("request:");
        let index_text = fmt_usize(self.index);
        s.append(index_text.as_str());
        s.append(" size:");
        let size_text = fmt_usize(self.size);
        s.append(size_text.as_str());
        s.append(" status:");
        match self.status {
            Some(code) => {
                let code_text = fmt_usize(code as usize);
                s.append(code_text.as_str());
            },
            None => {
                s.append("transport failure");
            },
        }
        s
    }
}

/// The fatal failures that abort a run: the input file cannot be opened, a
/// line of it cannot be decoded as text, or the HTTP transport fails. None
/// is retried or suppressed; the first one terminates the whole run.
#[derive(Clone, Copy, Debug, PartialEq, Eq)]
pub enum RunError {
    FileAccess,
    LineDecode,
    Transport,
}

/// The message reported for each fatal failure.
pub open spec fn message_of(e: RunError) -> Seq<char> {
    match e {
        RunError::FileAccess => "fatal: the input file cannot be opened"@,
        RunError::LineDecode => "fatal: a line of the input file cannot be decoded"@,
        RunError::Transport => "fatal: transport failure while sending a batch"@,
    }
}

impl RunError {
    /// Render the failure's message.
    pub fn message(&self) -> (s: String)
        ensures
            s@ == message_of(*self),
    {
        match self {
            RunError::FileAccess => String::from_str("fatal: the input file cannot be opened"),
            RunError::LineDecode => String::from_str(
                "fatal: a line of the input file cannot be decoded",
            ),
            RunError::Transport => String::from_str(
                "fatal: transport failure while sending a batch",
            ),
        }
    }
}

} // verus!

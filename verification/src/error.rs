//! Error reports and the failures that the library's procedures end in.

use vstd::prelude::*;
use vstd::string::*;

verus! {

/// The character of the decimal digit `d` (`0 <= d < 10`).
pub open spec fn digit_char(d: nat) -> char {
    if d == 0 { '0' } else if d == 1 { '1' } else if d == 2 { '2' } else if d == 3 { '3' }
    else if d == 4 { '4' } else if d == 5 { '5' } else if d == 6 { '6' } else if d == 7 { '7' }
    else if d == 8 { '8' } else { '9' }
}

/// The decimal notation of `n`: most significant digit first, without leading zeros.
pub open spec fn decimal(n: nat) -> Seq<char>
    decreases n,
{
    if n < 10 {
        seq![digit_char(n)]
    } else {
        decimal(n / 10).push(digit_char(n % 10))
    }
}

fn digit_str(d: u32) -> (s: &'static str)
    requires
        d < 10,
    ensures
        s@ == seq![digit_char(d as nat)],
{
    if d == 0 {
        proof { reveal_strlit("0"); }
        "0"
    } else if d == 1 {
        proof { reveal_strlit("1"); }
        "1"
    } else if d == 2 {
        proof { reveal_strlit("2"); }
        "2"
    } else if d == 3 {
        proof { reveal_strlit("3"); }
        "3"
    } else if d == 4 {
        proof { reveal_strlit("4"); }
        "4"
    } else if d == 5 {
        proof { reveal_strlit("5"); }
        "5"
    } else if d == 6 {
        proof { reveal_strlit("6"); }
        "6"
    } else if d == 7 {
        proof { reveal_strlit("7"); }
        "7"
    } else if d == 8 {
        proof { reveal_strlit("8"); }
        "8"
    } else {
        proof { reveal_strlit("9"); }
        "9"
    }
}

/// Appends the decimal notation of `n` to `out`.
pub fn push_decimal(out: &mut String, n: u32)
    ensures
        final(out)@ == old(out)@ + decimal(n as nat),
    decreases n,
{
    if n >= 10 {
        push_decimal(out, n / 10);
    }
    out.append(digit_str(n % 10));
    assert(old(out)@ + decimal(n as nat) =~= final(out)@) by {
        if n >= 10 {
            assert(decimal(n as nat) == decimal((n / 10) as nat).push(digit_char((n % 10) as nat)));
        }
    }
}

/// A report of what went wrong, where: the module and line that raised it, and its message.
pub struct Error {
    pub line: u32,
    pub module: String,
    pub msg: String,
}

impl Error {
    /// The text of the report: `module[line] => msg`.
    pub open spec fn text(&self) -> Seq<char> {
        self.module@ + "["@ + decimal(self.line as nat) + "] => "@ + self.msg@
    }

    /// Makes a report raised at `line` of `module` with the message `msg`.
    pub fn new(line: u32, module: String, msg: String) -> (e: Error)
        ensures
            e.line == line,
            e.module == module,
            e.msg == msg,
    {
        Error { line, module, msg }
    }

    /// Renders the report as `module[line] => msg`.
    pub fn message(&self) -> (s: String)
        ensures
            s@ == self.text(),
    {
        let mut s = self.module.clone();
        s.append("[");
        push_decimal(&mut s, self.line);
        s.append("] => ");
        s.append(self.msg.as_str());
        s
    }
}

/// The ways in which the library's procedures fail.
pub enum Failure {
    /// The text could not be parsed as a URL; the parser's report.
    InvalidUrl(String),
    /// The URL's scheme is neither `http` nor `https`.
    UnsupportedScheme(String),
    /// The URL has no host.
    MissingHost,
    /// The link index reported an error; its report.
    Store(String),
    /// A statement that must yield a row yielded none.
    MissingRow,
    /// A public key is not 33 bytes written in hexadecimal.
    InvalidPubKey,
}

/// A failure, as plain text.
pub enum FailureView {
    InvalidUrl(Seq<char>),
    UnsupportedScheme(Seq<char>),
    MissingHost,
    Store(Seq<char>),
    MissingRow,
    InvalidPubKey,
}

impl View for Failure {
    type V = FailureView;

    open spec fn view(&self) -> FailureView {
        match self {
            Failure::InvalidUrl(t) => FailureView::InvalidUrl(t@),
            Failure::UnsupportedScheme(s) => FailureView::UnsupportedScheme(s@),
            Failure::MissingHost => FailureView::MissingHost,
            Failure::Store(t) => FailureView::Store(t@),
            Failure::MissingRow => FailureView::MissingRow,
            Failure::InvalidPubKey => FailureView::InvalidPubKey,
        }
    }
}

/// The message of a failure.
pub open spec fn failure_text(f: Failure) -> Seq<char> {
    match f {
        Failure::InvalidUrl(t) => t@,
        Failure::UnsupportedScheme(s) => "not supported schema: "@ + s@,
        Failure::MissingHost => "url has no host"@,
        Failure::Store(t) => t@,
        Failure::MissingRow => "no rows returned by a query that expected to return at least one row"@,
        Failure::InvalidPubKey => "public key is not 33 bytes of hexadecimal"@,
    }
}

impl Failure {
    /// The message of this failure.
    pub fn describe(&self) -> (s: String)
        ensures
            s@ == failure_text(*self),
    {
        match self {
            Failure::InvalidUrl(t) => t.clone(),
            Failure::UnsupportedScheme(n) => {
                let mut s = "not supported schema: ".to_owned();
                s.append(n.as_str());
                s
            },
            Failure::MissingHost => "url has no host".to_owned(),
            Failure::Store(t) => t.clone(),
            Failure::MissingRow => "no rows returned by a query that expected to return at least one row".to_owned(),
            Failure::InvalidPubKey => "public key is not 33 bytes of hexadecimal".to_owned(),
        }
    }
}

} // verus!

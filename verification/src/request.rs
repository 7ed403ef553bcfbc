use vstd::prelude::*;

verus! {

/// A calendar date as plain values, as the request formatting needs it:
/// a four-digit year and two-digit month and day.
pub struct OfficiumDate {
    pub year: u16,
    pub month: u8,
    pub day: u8,
}

impl OfficiumDate {
    /// The bounds under which the date can be formatted.
    pub open spec fn wf(&self) -> bool {
        1 <= self.year <= 9999 && 1 <= self.month <= 12 && 1 <= self.day <= 31
    }
}

/// The decimal digit character for `d`.
pub open spec fn spec_digit(d: int) -> char {
    if d == 0 {
        '0'
    } else if d == 1 {
        '1'
    } else if d == 2 {
        '2'
    } else if d == 3 {
        '3'
    } else if d == 4 {
        '4'
    } else if d == 5 {
        '5'
    } else if d == 6 {
        '6'
    } else if d == 7 {
        '7'
    } else if d == 8 {
        '8'
    } else {
        '9'
    }
}

/// Two zero-padded decimal digits.
pub open spec fn spec_two_digits(n: int) -> Seq<char> {
    seq![spec_digit(n / 10), spec_digit(n % 10)]
}

/// Four zero-padded decimal digits.
pub open spec fn spec_four_digits(n: int) -> Seq<char> {
    seq![
        spec_digit(n / 1000),
        spec_digit((n / 100) % 10),
        spec_digit((n / 10) % 10),
        spec_digit(n % 10),
    ]
}

/// The date in the zero-padded month-day-year shape the remote service
/// expects.
pub open spec fn spec_date_str(d: OfficiumDate) -> Seq<char> {
    spec_two_digits(d.month as int) + seq!['-'] + spec_two_digits(d.day as int) + seq!['-']
        + spec_four_digits(d.year as int)
}

fn digit_str(d: u16) -> (r: &'static str)
    requires
        d < 10,
    ensures
        r@ == seq![spec_digit(d as int)],
{
    let r: &'static str = match d {
        0 => "0",
        1 => "1",
        2 => "2",
        3 => "3",
        4 => "4",
        5 => "5",
        6 => "6",
        7 => "7",
        8 => "8",
        _ => "9",
    };
    proof {
        reveal_strlit("0");
        reveal_strlit("1");
        reveal_strlit("2");
        reveal_strlit("3");
        reveal_strlit("4");
        reveal_strlit("5");
        reveal_strlit("6");
        reveal_strlit("7");
        reveal_strlit("8");
        reveal_strlit("9");
        assert(r@ =~= seq![spec_digit(d as int)]);
    }
    r
}

fn push_two_digits(s: &mut String, n: u16)
    requires
        n < 100,
    ensures
        final(s)@ == old(s)@ + spec_two_digits(n as int),
{
    let ghost start = s@;
    s.append(digit_str(n / 10));
    s.append(digit_str(n % 10));
    proof {
        assert(s@ =~= start + spec_two_digits(n as int));
    }
}

fn push_four_digits(s: &mut String, n: u16)
    requires
        n < 10000,
    ensures
        final(s)@ == old(s)@ + spec_four_digits(n as int),
{
    let ghost start = s@;
    s.append(digit_str(n / 1000));
    s.append(digit_str((n / 100) % 10));
    s.append(digit_str((n / 10) % 10));
    s.append(digit_str(n % 10));
    proof {
        assert(s@ =~= start + spec_four_digits(n as int));
    }
}

/// The parameters of one remote office request: the formatted date it is
/// for, a fixed path and fixed query settings.
pub struct RequestParameters {
    date: String,
}

impl View for RequestParameters {
    type V = Seq<char>;

    closed spec fn view(&self) -> Seq<char> {
        self.date@
    }
}

impl RequestParameters {
    /// The fixed path of the office script.
    pub fn path(&self) -> (r: &str)
        ensures
            r@ == "/cgi-bin/horas/officium.pl"@,
    {
        "/cgi-bin/horas/officium.pl"
    }

    /// The query pairs, in order: the formatted date, then the fixed
    /// expansion, rubrics version, second language, votive and command
    /// settings.
    pub fn query_pairs(&self) -> (r: Vec<(&str, &str)>)
        ensures
            r@.len() == 6,
            r@[0].0@ == "date"@ && r@[0].1@ == self@,
            r@[1].0@ == "expand"@ && r@[1].1@ == "tota"@,
            r@[2].0@ == "version"@ && r@[2].1@ == "Rubrics 1960 - 1960"@,
            r@[3].0@ == "lang2"@ && r@[3].1@ == "Polski"@,
            r@[4].0@ == "votive"@ && r@[4].1@ == "Hodie"@,
            r@[5].0@ == "command"@ && r@[5].1@ == "prayVesperae"@,
    {
        let mut query: Vec<(&str, &str)> = Vec::new();
        query.push(("date", self.date.as_str()));
        query.push(("expand", "tota"));
        query.push(("version", "Rubrics 1960 - 1960"));
        query.push(("lang2", "Polski"));
        query.push(("votive", "Hodie"));
        query.push(("command", "prayVesperae"));
        query
    }
}

/// Construct request parameters for Vesperae on the given day.
pub fn vesperae(date: &OfficiumDate) -> (r: RequestParameters)
    requires
        date.wf(),
    ensures
        r@ == spec_date_str(*date),
{
    let mut s = String::new();
    push_two_digits(&mut s, date.month as u16);
    s.append("-");
    push_two_digits(&mut s, date.day as u16);
    s.append("-");
    push_four_digits(&mut s, date.year);
    proof {
        reveal_strlit("-");
        assert("-"@ =~= seq!['-']);
        assert(s@ =~= spec_date_str(*date));
    }
    RequestParameters { date: s }
}

} // verus!

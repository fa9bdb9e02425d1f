//! The options of a run, and the parsing of the values that come as text.

use crate::percentile::Percentile;
use vstd::prelude::*;

verus! {

/// Why a text is not a number.
#[derive(Debug, Clone, Copy, PartialEq, Eq, Structural)]
pub enum NumberError {
    /// The text is empty.
    Empty,
    /// The text holds something that is not a digit, or a sign alone.
    InvalidDigit,
    /// The digits name a number beyond 64 bits.
    Overflow,
}

/// Whether `c` is one of the digits `0` to `9`.
pub open spec fn is_digit(c: char) -> bool {
    48 <= c as u32 <= 57
}

/// The value of the digit `c`.
pub open spec fn digit_value(c: char) -> nat {
    (c as u32 - 48) as nat
}

/// Whether `s` holds digits only.
pub open spec fn all_digits(s: Seq<char>) -> bool {
    forall|i: int| 0 <= i < s.len() ==> is_digit(#[trigger] s[i])
}

/// The number that the digits `s` name in base ten.
pub open spec fn decimal_value(s: Seq<char>) -> nat
    decreases s.len(),
{
    if s.len() == 0 {
        0
    } else {
        decimal_value(s.drop_last()) * 10 + digit_value(s.last())
    }
}

/// `s` without a leading `+`.
pub open spec fn unsigned_part(s: Seq<char>) -> Seq<char> {
    if s.len() > 0 && s[0] == '+' {
        s.subrange(1, s.len() as int)
    } else {
        s
    }
}

/// The number that `s` names: digits in base ten, with an optional `+` before
/// them and nothing else, that fit in 64 bits.
pub open spec fn parsed_number(s: Seq<char>) -> Result<u64, NumberError> {
    let digits = unsigned_part(s);
    if s.len() == 0 {
        Err(NumberError::Empty)
    } else if digits.len() == 0 || !all_digits(digits) {
        Err(NumberError::InvalidDigit)
    } else if decimal_value(digits) > u64::MAX {
        Err(NumberError::Overflow)
    } else {
        Ok(decimal_value(digits) as u64)
    }
}

/// `s` without the unit `s` for seconds at its end, if it has one.
pub open spec fn without_unit(s: Seq<char>) -> Seq<char> {
    if s.len() > 0 && s.last() == 's' {
        s.drop_last()
    } else {
        s
    }
}

/// The seconds that `s` names: a number, with an optional `s` behind it.
pub open spec fn parsed_duration(s: Seq<char>) -> Result<u64, NumberError> {
    if parsed_number(s) is Ok {
        parsed_number(s)
    } else {
        parsed_number(without_unit(s))
    }
}

/// Index of the first `c` in `s`, or the length of `s` when there is none.
pub open spec fn first_index(s: Seq<char>, c: char) -> int
    decreases s.len(),
{
    if s.len() == 0 {
        0
    } else if s[0] == c {
        0
    } else {
        1 + first_index(s.drop_first(), c)
    }
}

/// The parts of `s` before and behind its first `:`, if it has one.
pub open spec fn split_at_colon(s: Seq<char>) -> Option<(Seq<char>, Seq<char>)> {
    let at = first_index(s, ':');
    if at < s.len() {
        Some((s.subrange(0, at), s.subrange(at + 1, s.len() as int)))
    } else {
        None
    }
}

/// The first index at which `c` stands is `first_index`.
pub proof fn lemma_first_index(s: Seq<char>, c: char, at: int)
    requires
        0 <= at <= s.len(),
        forall|j: int| 0 <= j < at ==> s[j] != c,
        at < s.len() ==> s[at] == c,
    ensures
        first_index(s, c) == at,
    decreases s.len(),
{
    if at > 0 {
        let rest = s.drop_first();
        assert forall|j: int| 0 <= j < at - 1 implies rest[j] != c by {
            assert(rest[j] == s[j + 1]);
        }
        if at < s.len() {
            assert(rest[at - 1] == s[at]);
        }
        lemma_first_index(rest, c, at - 1);
    }
}

/// The digits read so far never name more than all the digits do.
pub proof fn lemma_decimal_value_grows(s: Seq<char>, i: int)
    requires
        0 <= i <= s.len(),
    ensures
        decimal_value(s.take(i)) <= decimal_value(s),
    decreases s.len() - i,
{
    if i < s.len() {
        lemma_decimal_value_grows(s, i + 1);
        assert(s.take(i + 1).drop_last() =~= s.take(i));
    } else {
        assert(s.take(i) =~= s);
    }
}

/// Reads the number that `text` names.
pub fn parse_number(text: &str) -> (parsed: Result<u64, NumberError>)
    ensures
        parsed == parsed_number(text@),
{
    let len = text.unicode_len();
    if len == 0 {
        return Err(NumberError::Empty);
    }
    let start: usize = if text.get_char(0) == '+' {
        1
    } else {
        0
    };
    let ghost digits = unsigned_part(text@);
    assert(digits =~= text@.subrange(start as int, len as int));
    if start == len {
        return Err(NumberError::InvalidDigit);
    }
    let mut i: usize = start;
    while i < len
        invariant
            start <= i <= len,
            len == text@.len(),
            digits == text@.subrange(start as int, len as int),
            digits == unsigned_part(text@),
            forall|j: int| 0 <= j < i - start ==> is_digit(#[trigger] digits[j]),
        decreases len - i,
    {
        let c = text.get_char(i);
        assert(digits[i - start] == c);
        if !(48 <= c as u32 && c as u32 <= 57) {
            assert(!is_digit(digits[i - start]));
            return Err(NumberError::InvalidDigit);
        }
        i += 1;
    }
    assert(all_digits(digits));
    let mut value: u64 = 0;
    let mut k: usize = start;
    while k < len
        invariant
            start <= k <= len,
            len == text@.len(),
            digits == text@.subrange(start as int, len as int),
            digits == unsigned_part(text@),
            all_digits(digits),
            value == decimal_value(digits.take(k - start)),
        decreases len - k,
    {
        let c = text.get_char(k);
        assert(digits[k - start] == c);
        assert(is_digit(digits[k - start]));
        let d: u64 = (c as u32 - 48) as u64;
        proof {
            let read = digits.take(k - start + 1);
            assert(read.drop_last() =~= digits.take(k - start));
            assert(read.last() == c);
            assert(decimal_value(read) == value * 10 + d);
            lemma_decimal_value_grows(digits, k - start + 1);
        }
        let next = match value.checked_mul(10) {
            Some(scaled) => scaled.checked_add(d),
            None => None,
        };
        match next {
            Some(n) => {
                value = n;
            },
            None => {
                return Err(NumberError::Overflow);
            },
        }
        k += 1;
    }
    assert(digits.take(len - start) =~= digits);
    Ok(value)
}

/// Tells whether `s` names a number.
pub fn is_number(s: &str) -> (number: bool)
    ensures
        number == (parsed_number(s@) is Ok),
{
    parse_number(s).is_ok()
}

/// Reads a length of time in seconds: a number, with an optional `s` behind
/// it.
pub fn parse_duration(arg: &str) -> (seconds: Result<u64, NumberError>)
    ensures
        seconds == parsed_duration(arg@),
{
    let plain = parse_number(arg);
    if plain.is_ok() {
        return plain;
    }
    let len = arg.unicode_len();
    if len > 0 && arg.get_char(len - 1) == 's' {
        let input = arg.substring_char(0, len - 1);
        assert(input@ =~= arg@.drop_last());
        parse_number(input)
    } else {
        plain
    }
}

/// Splits `text` at its first `:` into what stands before and behind it.
pub fn split_pair(text: &str) -> (pair: Option<(String, String)>)
    ensures
        match pair {
            Some((a, b)) => split_at_colon(text@) == Some((a@, b@)),
            None => split_at_colon(text@) is None,
        },
{
    let len = text.unicode_len();
    let mut i: usize = 0;
    while i < len
        invariant
            i <= len,
            len == text@.len(),
            forall|j: int| 0 <= j < i ==> text@[j] != ':',
        decreases len - i,
    {
        if text.get_char(i) == ':' {
            proof {
                lemma_first_index(text@, ':', i as int);
            }
            let before = text.substring_char(0, i);
            let behind = text.substring_char(i + 1, len);
            return Some((before.to_owned(), behind.to_owned()));
        }
        i += 1;
    }
    proof {
        lemma_first_index(text@, ':', len as int);
    }
    None
}

/// Tells whether two texts hold the same characters.
pub fn str_equal(a: &str, b: &str) -> (same: bool)
    ensures
        same == (a@ == b@),
{
    let len = a.unicode_len();
    if len != b.unicode_len() {
        return false;
    }
    let mut i: usize = 0;
    while i < len
        invariant
            i <= len,
            len == a@.len(),
            len == b@.len(),
            forall|j: int| 0 <= j < i ==> a@[j] == b@[j],
        decreases len - i,
    {
        if a.get_char(i) != b.get_char(i) {
            return false;
        }
        i += 1;
    }
    assert(a@ =~= b@);
    true
}

/// A text that should hold a `:` and holds none.
#[derive(Debug, Clone, Copy, PartialEq, Eq, Structural)]
pub struct MissingColon;

/// Reads `name:path`, the name under which a file is sent and where the
/// file lies.
pub fn parse_filename_and_path(s: &str) -> (parsed: Result<(String, String), MissingColon>)
    ensures
        match parsed {
            Ok((name, path)) => split_at_colon(s@) == Some((name@, path@)),
            Err(_) => split_at_colon(s@) is None,
        },
{
    match split_pair(s) {
        Some(pair) => Ok(pair),
        None => Err(MissingColon),
    }
}

/// How the report is written.
#[derive(Debug, Clone, Copy, PartialEq, Eq, Structural)]
pub enum OutputFormat {
    /// As a table in plain text.
    Text,
    /// As a JSON document.
    Json,
}

/// The name under which a format is chosen.
pub open spec fn format_name(format: OutputFormat) -> Seq<char> {
    match format {
        OutputFormat::Text => "TEXT"@,
        OutputFormat::Json => "JSON"@,
    }
}

impl OutputFormat {
    /// The name under which this format is chosen.
    pub fn name(&self) -> (name: &'static str)
        ensures
            name@ == format_name(*self),
    {
        match self {
            OutputFormat::Text => "TEXT",
            OutputFormat::Json => "JSON",
        }
    }

    /// The format that is chosen under `name`. Names are told apart by
    /// case.
    pub fn from_name(name: &str) -> (format: Option<OutputFormat>)
        ensures
            match format {
                Some(f) => name@ == format_name(f),
                None => forall|f: OutputFormat| name@ != format_name(f),
            },
    {
        if str_equal(name, "TEXT") {
            Some(OutputFormat::Text)
        } else if str_equal(name, "JSON") {
            Some(OutputFormat::Json)
        } else {
            None
        }
    }

    /// The formats, in the order in which they are offered.
    pub fn value_variants() -> (variants: [OutputFormat; 2])
        ensures
            variants@ == seq![OutputFormat::Text, OutputFormat::Json],
    {
        let variants = [OutputFormat::Text, OutputFormat::Json];
        assert(variants@ =~= seq![OutputFormat::Text, OutputFormat::Json]);
        variants
    }
}

/// The request methods that a run can use.
#[derive(Debug, Clone, Copy, PartialEq, Eq, Hash, Structural)]
pub enum Method {
    Get,
    Post,
    Put,
    Delete,
    Head,
    Patch,
}

/// The name of a method as it stands in a request.
pub open spec fn method_name(method: Method) -> Seq<char> {
    match method {
        Method::Get => "GET"@,
        Method::Post => "POST"@,
        Method::Put => "PUT"@,
        Method::Delete => "DELETE"@,
        Method::Head => "HEAD"@,
        Method::Patch => "PATCH"@,
    }
}

impl Method {
    /// The name of this method as it stands in a request.
    pub fn name(&self) -> (name: &'static str)
        ensures
            name@ == method_name(*self),
    {
        match self {
            Method::Get => "GET",
            Method::Post => "POST",
            Method::Put => "PUT",
            Method::Delete => "DELETE",
            Method::Head => "HEAD",
            Method::Patch => "PATCH",
        }
    }

    /// The method with the name `name`. Names are told apart by case.
    pub fn from_name(name: &str) -> (method: Option<Method>)
        ensures
            match method {
                Some(m) => name@ == method_name(m),
                None => forall|m: Method| name@ != method_name(m),
            },
    {
        if str_equal(name, "GET") {
            Some(Method::Get)
        } else if str_equal(name, "POST") {
            Some(Method::Post)
        } else if str_equal(name, "PUT") {
            Some(Method::Put)
        } else if str_equal(name, "DELETE") {
            Some(Method::Delete)
        } else if str_equal(name, "HEAD") {
            Some(Method::Head)
        } else if str_equal(name, "PATCH") {
            Some(Method::Patch)
        } else {
            None
        }
    }

    /// The methods, in the order in which they are offered.
    pub fn value_variants() -> (variants: [Method; 6])
        ensures
            variants@ == seq![
                Method::Get,
                Method::Put,
                Method::Post,
                Method::Delete,
                Method::Head,
                Method::Patch,
            ],
    {
        let variants = [
            Method::Get,
            Method::Put,
            Method::Post,
            Method::Delete,
            Method::Head,
            Method::Patch,
        ];
        assert(variants@ =~= seq![
            Method::Get,
            Method::Put,
            Method::Post,
            Method::Delete,
            Method::Head,
            Method::Patch,
        ]);
        variants
    }
}

/// The options of a run.
pub struct Arg {
    /// Number of workers, each with a connection of its own.
    pub connections: u16,
    /// Seconds after which a request is given up.
    pub timeout: u64,
    /// Whether the report in plain text lists the percentile latencies.
    pub latencies: bool,
    /// The percentiles whose latencies are reported.
    pub percentiles: Vec<Percentile>,
    /// The method of every request.
    pub method: Method,
    /// Whether each request closes its connection.
    pub disable_keep_alive: bool,
    /// Headers of every request, each as `name:value`.
    pub headers: Vec<String>,
    /// Number of requests in a run that is bounded by count.
    pub requests: Option<u64>,
    /// Seconds of a run that is bounded by time.
    pub duration: Option<u64>,
    /// Requests per second that the run does not exceed, if it is limited.
    pub rate: Option<u16>,
    /// Where the client's certificate lies.
    pub cert: Option<String>,
    /// Where the key of the client's certificate lies.
    pub key: Option<String>,
    /// Whether the server's certificate and name go unchecked.
    pub insecure: bool,
    /// A file sent as JSON body.
    pub json_file: Option<String>,
    /// A text sent as JSON body.
    pub json_body: Option<String>,
    /// A file sent as plain-text body.
    pub text_file: Option<String>,
    /// A text sent as plain-text body.
    pub text_body: Option<String>,
    /// Fields of a multipart body, each as `name:value`.
    pub mp: Vec<String>,
    /// Files of a multipart body, each with the name under which it is sent
    /// and the place where it lies.
    pub mp_file: Vec<(String, String)>,
    /// Fields of a form body, each as `name:value`.
    pub form: Vec<String>,
    /// How the report is written.
    pub output_format: OutputFormat,
    /// Where the requests go.
    pub url: Option<String>,
}

/// What is wrong with the options of a run.
#[derive(Debug, Clone, Copy, PartialEq, Eq, Structural)]
pub enum ArgError {
    /// There is no address for the requests to go to.
    MissingUrl,
    /// Neither a count of requests nor a length of time is given.
    MissingWorkload,
    /// Both a count of requests and a length of time are given.
    AmbiguousWorkload,
    /// The rate is zero.
    ZeroRate,
    /// A certificate is given without its key.
    CertWithoutKey,
    /// A key is given without its certificate.
    KeyWithoutCert,
    /// More than one body is given. Only the fields and the files of a
    /// multipart body go together.
    ConflictingBodies,
}

/// 1 if the option is given, 0 if not.
pub open spec fn given(present: bool) -> nat {
    if present {
        1
    } else {
        0
    }
}

/// How many bodies the options give: a JSON text, a JSON file, a plain
/// text, a plain-text file, a form and a multipart body count one each.
pub open spec fn bodies(arg: Arg) -> nat {
    given(arg.json_file is Some) + given(arg.json_body is Some) + given(arg.text_file is Some)
        + given(arg.text_body is Some) + given(arg.form@.len() > 0) + given(
        arg.mp@.len() > 0 || arg.mp_file@.len() > 0,
    )
}

/// What is wrong with the options, if anything: the first rule that they
/// break, in the order of `ArgError`.
pub open spec fn arg_error(arg: Arg) -> Option<ArgError> {
    if arg.url is None {
        Some(ArgError::MissingUrl)
    } else if arg.requests is None && arg.duration is None {
        Some(ArgError::MissingWorkload)
    } else if arg.requests is Some && arg.duration is Some {
        Some(ArgError::AmbiguousWorkload)
    } else if arg.rate == Some(0u16) {
        Some(ArgError::ZeroRate)
    } else if arg.cert is Some && arg.key is None {
        Some(ArgError::CertWithoutKey)
    } else if arg.key is Some && arg.cert is None {
        Some(ArgError::KeyWithoutCert)
    } else if bodies(arg) > 1 {
        Some(ArgError::ConflictingBodies)
    } else {
        None
    }
}

/// The percentiles that are reported unless others are asked for: 50%, 75%,
/// 90% and 99%, in parts per million.
pub open spec fn default_percentiles() -> Seq<u32> {
    seq![500_000u32, 750_000u32, 900_000u32, 990_000u32]
}

/// The percentiles that are reported unless others are asked for.
pub fn standard_percentiles() -> (percentiles: Vec<Percentile>)
    ensures
        percentiles@.len() == 4,
        forall|i: int| 0 <= i < 4 ==> (#[trigger] percentiles@[i])@ == default_percentiles()[i],
{
    let mut percentiles: Vec<Percentile> = Vec::new();
    percentiles.push(Percentile::from_ppm(500_000).unwrap());
    percentiles.push(Percentile::from_ppm(750_000).unwrap());
    percentiles.push(Percentile::from_ppm(900_000).unwrap());
    percentiles.push(Percentile::from_ppm(990_000).unwrap());
    percentiles
}

impl Arg {
    /// The options of a run against `url` with every option at its default:
    /// 50 connections, 30 seconds until a request is given up, the method
    /// `GET`, the standard percentiles, a report in plain text, and neither
    /// a count of requests nor a length of time yet.
    pub fn new(url: String) -> (arg: Arg)
        ensures
            arg.connections == 50,
            arg.timeout == 30,
            !arg.latencies,
            arg.percentiles@.len() == 4,
            forall|i: int|
                0 <= i < 4 ==> (#[trigger] arg.percentiles@[i])@ == default_percentiles()[i],
            arg.method == Method::Get,
            !arg.disable_keep_alive,
            arg.headers@.len() == 0,
            arg.requests is None,
            arg.duration is None,
            arg.rate is None,
            arg.cert is None,
            arg.key is None,
            !arg.insecure,
            arg.json_file is None,
            arg.json_body is None,
            arg.text_file is None,
            arg.text_body is None,
            arg.mp@.len() == 0,
            arg.mp_file@.len() == 0,
            arg.form@.len() == 0,
            arg.output_format == OutputFormat::Text,
            arg.url == Some(url),
    {
        Arg {
            connections: 50,
            timeout: 30,
            latencies: false,
            percentiles: standard_percentiles(),
            method: Method::Get,
            disable_keep_alive: false,
            headers: Vec::new(),
            requests: None,
            duration: None,
            rate: None,
            cert: None,
            key: None,
            insecure: false,
            json_file: None,
            json_body: None,
            text_file: None,
            text_body: None,
            mp: Vec::new(),
            mp_file: Vec::new(),
            form: Vec::new(),
            output_format: OutputFormat::Text,
            url: Some(url),
        }
    }

    /// How many bodies the options give.
    fn count_bodies(&self) -> (count: u8)
        ensures
            count == bodies(*self),
    {
        let mut count: u8 = 0;
        if self.json_file.is_some() {
            count += 1;
        }
        if self.json_body.is_some() {
            count += 1;
        }
        if self.text_file.is_some() {
            count += 1;
        }
        if self.text_body.is_some() {
            count += 1;
        }
        if self.form.len() > 0 {
            count += 1;
        }
        if self.mp.len() > 0 || self.mp_file.len() > 0 {
            count += 1;
        }
        count
    }

    /// Holds the options to the rules of a run: an address, either a count
    /// of requests or a length of time, a rate above zero if there is one,
    /// certificate and key together or not at all, and at most one body.
    pub fn validate(&self) -> (checked: Result<(), ArgError>)
        ensures
            match checked {
                Ok(_) => arg_error(*self) is None,
                Err(e) => arg_error(*self) == Some(e),
            },
    {
        if self.url.is_none() {
            return Err(ArgError::MissingUrl);
        }
        if self.requests.is_none() && self.duration.is_none() {
            return Err(ArgError::MissingWorkload);
        }
        if self.requests.is_some() && self.duration.is_some() {
            return Err(ArgError::AmbiguousWorkload);
        }
        match self.rate {
            Some(rate) => {
                if rate == 0 {
                    return Err(ArgError::ZeroRate);
                }
            },
            None => {},
        }
        if self.cert.is_some() && self.key.is_none() {
            return Err(ArgError::CertWithoutKey);
        }
        if self.key.is_some() && self.cert.is_none() {
            return Err(ArgError::KeyWithoutCert);
        }
        if self.count_bodies() > 1 {
            return Err(ArgError::ConflictingBodies);
        }
        Ok(())
    }
}

} // verus!

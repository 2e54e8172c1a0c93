//! The work model: what a request asks the server to do.
//!
//! A [`Work`] is written `kind` or `kind:amount`. The kinds are `immediate`
//! (or `imm`), `payload`, `const`, `poisson`, `busytime` (or `bt`) and
//! `busywork` (or `bw`); the first two take no amount, the others need one.

use crate::decimal::{decimal_text, lemma_print_then_parse, parse_amount, parse_amount_spec, push_decimal, AmountError};
use rand::seq::SliceRandom;
use vstd::prelude::*;
use vstd::string::*;

verus! {

/// A number of microseconds that is not zero.
#[derive(Debug, Clone, Copy, PartialEq, Eq, Structural)]
pub struct NonZeroMicros {
    micros: u64,
}

impl NonZeroMicros {
    #[verifier::type_invariant]
    closed spec fn nonzero(self) -> bool {
        self.micros > 0
    }

    /// The number held.
    pub closed spec fn value(self) -> u64 {
        self.micros
    }

    /// The value that holds `v`.
    pub closed spec fn from_value(v: u64) -> NonZeroMicros {
        NonZeroMicros { micros: v }
    }

    /// `from_value` and `value` undo each other.
    pub broadcast proof fn lemma_value_of_from_value(v: u64)
        ensures
            #[trigger] NonZeroMicros::from_value(v).value() == v,
    {
    }

    pub broadcast proof fn lemma_from_value_of_value(r: NonZeroMicros)
        ensures
            NonZeroMicros::from_value(#[trigger] r.value()) == r,
    {
    }

    /// `None` for zero, the wrapped number otherwise.
    pub fn new(v: u64) -> (r: Option<NonZeroMicros>)
        ensures
            r == if v == 0 {
                None
            } else {
                Some(NonZeroMicros::from_value(v))
            },
    {
        if v == 0 {
            None
        } else {
            Some(NonZeroMicros { micros: v })
        }
    }

    /// The number held, which is never zero.
    pub fn get(self) -> (v: u64)
        ensures
            v == self.value(),
            v > 0,
    {
        proof {
            use_type_invariant(self);
        }
        self.micros
    }
}

/// A type and an amount of busy-work.
#[derive(Debug, Clone, Copy, PartialEq, Eq, Structural)]
pub enum Work {
    /// Nothing to do.
    Immediate,
    /// Busy-wait for this many microseconds.
    Const(u64),
    /// Answer with a buffer of a randomly chosen size, without delay.
    Payload,
    /// Busy-wait for a Poisson-distributed number of microseconds with this mean.
    Poisson(NonZeroMicros),
    /// Busy-wait for this many microseconds; a tag of its own beside `Const`.
    BusyTimeConst(u64),
    /// Run this many iterations of a fixed computation.
    BusyWorkConst(u64),
}

/// What performing a work asks of the thread that runs it, before the
/// answer's payload is made.
#[derive(Debug, Clone, Copy, PartialEq, Eq, Structural)]
pub enum Effort {
    /// Nothing: the work is done at once.
    Nothing,
    /// Spin on the monotonic clock until this many microseconds have passed.
    BusyWait(u64),
    /// Draw a duration from a Poisson distribution with this mean, in
    /// microseconds, then spin for it.
    PoissonWait(NonZeroMicros),
    /// Run the arithmetic kernel this many times, whatever time it takes.
    Iterate(u64),
}

/// Whether `n` is one of the sizes a payload can have.
pub open spec fn is_payload_size(n: nat) -> bool {
    n == 64 || n == 256 || n == 512 || n == 1024
}

/// Picks one element of `items` at random.
///
/// Calls `rand::seq::SliceRandom::choose` on the thread-local generator.
/// As that method does, it gives `None` for an empty slice and otherwise an
/// element of the slice; which one is not determined.
#[verifier::external_body]
fn choose_size(items: &[usize]) -> (r: Option<usize>)
    ensures
        items@.len() == 0 ==> r is None,
        items@.len() > 0 ==> r is Some && items@.contains(r->Some_0),
{
    items.choose(&mut rand::thread_rng()).copied()
}

/// A buffer of `len` zero bytes.
pub fn blank_payload(len: usize) -> (buf: Vec<u8>)
    ensures
        buf@ == Seq::new(len as nat, |i: int| 0u8),
{
    let buf = vec![0u8; len];
    assert(buf@ =~= Seq::new(len as nat, |i: int| 0u8));
    buf
}

/// Whether a busy-wait for `target_us` microseconds is over once the
/// monotonic clock shows `elapsed_us` since it began.
pub fn busy_wait_over(elapsed_us: u64, target_us: u64) -> (over: bool)
    ensures
        over == (elapsed_us >= target_us),
{
    elapsed_us >= target_us
}

/// Things that can go wrong when reading a [`Work`].
#[derive(Debug)]
pub enum WorkParseErr {
    /// The `kind:amount` form was not followed; holds the text as given.
    UnknownFmt(String),
    /// A Poisson distribution with mean zero was asked for.
    ZeroPoissonValue,
    /// The form was followed, but the amount is no `u64`.
    U64Parse(AmountError),
}

/// What a [`WorkParseErr`] says, with the offending text as a sequence.
pub enum ParseFailure {
    UnknownFmt(Seq<char>),
    ZeroPoissonValue,
    U64Parse(AmountError),
}

impl View for WorkParseErr {
    type V = ParseFailure;

    open spec fn view(&self) -> ParseFailure {
        match self {
            WorkParseErr::UnknownFmt(s) => ParseFailure::UnknownFmt(s@),
            WorkParseErr::ZeroPoissonValue => ParseFailure::ZeroPoissonValue,
            WorkParseErr::U64Parse(e) => ParseFailure::U64Parse(*e),
        }
    }
}

impl ParseFailure {
    /// The message of the error.
    pub open spec fn message(self) -> Seq<char> {
        match self {
            ParseFailure::UnknownFmt(s) => "Unknown work format specification "@ + s
                + ". Format is [immedate|const|poisson|busytime|busywork]:[amount]."@,
            ParseFailure::ZeroPoissonValue => "Poisson-distributed work amount must be nonzero."@,
            ParseFailure::U64Parse(e) => "Could not parse work amount "@ + e.text()
                + " as u64."@,
        }
    }
}

impl WorkParseErr {
    /// The message of the error, for the operator.
    pub fn to_string(&self) -> (message: String)
        ensures
            message@ == self@.message(),
    {
        match self {
            WorkParseErr::UnknownFmt(s) => {
                let mut out = "Unknown work format specification ".to_owned();
                out.append(s.as_str());
                out.append(". Format is [immedate|const|poisson|busytime|busywork]:[amount].");
                out
            },
            WorkParseErr::ZeroPoissonValue => {
                "Poisson-distributed work amount must be nonzero.".to_owned()
            },
            WorkParseErr::U64Parse(e) => {
                let mut out = "Could not parse work amount ".to_owned();
                out.append(e.describe());
                out.append(" as u64.");
                out
            },
        }
    }
}

/// Index of the first `:` in `s`, or the length of `s` if it holds none.
pub open spec fn first_colon(s: Seq<char>) -> nat
    decreases s.len(),
{
    if s.len() == 0 || s[0] == ':' {
        0
    } else {
        1 + first_colon(s.skip(1))
    }
}

/// A kind with an amount: the amount is read, and a Poisson mean of zero refused.
pub open spec fn with_amount_spec(kind: Seq<char>, amount: Seq<char>, whole: Seq<char>) -> Result<
    Work,
    ParseFailure,
> {
    let amt = parse_amount_spec(amount);
    if kind == "const"@ {
        match amt {
            Ok(v) => Ok(Work::Const(v)),
            Err(e) => Err(ParseFailure::U64Parse(e)),
        }
    } else if kind == "poisson"@ {
        match amt {
            Ok(v) => if v == 0 {
                Err(ParseFailure::ZeroPoissonValue)
            } else {
                Ok(Work::Poisson(NonZeroMicros::from_value(v)))
            },
            Err(e) => Err(ParseFailure::U64Parse(e)),
        }
    } else if kind == "busytime"@ || kind == "bt"@ {
        match amt {
            Ok(v) => Ok(Work::BusyTimeConst(v)),
            Err(e) => Err(ParseFailure::U64Parse(e)),
        }
    } else if kind == "busywork"@ || kind == "bw"@ {
        match amt {
            Ok(v) => Ok(Work::BusyWorkConst(v)),
            Err(e) => Err(ParseFailure::U64Parse(e)),
        }
    } else {
        Err(ParseFailure::UnknownFmt(whole))
    }
}

/// What a text means as a [`Work`].
///
/// Without a colon the text must be a kind that takes no amount. With one
/// colon it must be a kind that takes an amount, followed by the amount.
/// Anything else, a second colon included, is an unknown format.
pub open spec fn parse_spec(s: Seq<char>) -> Result<Work, ParseFailure> {
    let i = first_colon(s) as int;
    if i == s.len() {
        if s == "immediate"@ || s == "imm"@ {
            Ok(Work::Immediate)
        } else if s == "payload"@ {
            Ok(Work::Payload)
        } else {
            Err(ParseFailure::UnknownFmt(s))
        }
    } else {
        let amount = s.skip(i + 1);
        if first_colon(amount) < amount.len() {
            Err(ParseFailure::UnknownFmt(s))
        } else {
            with_amount_spec(s.take(i), amount, s)
        }
    }
}

/// No position before the first colon holds a colon, and the position of
/// the first colon, if there is one, does.
pub proof fn lemma_first_colon(s: Seq<char>)
    ensures
        first_colon(s) <= s.len(),
        forall|j: int| 0 <= j < first_colon(s) ==> #[trigger] s[j] != ':',
        first_colon(s) < s.len() ==> s[first_colon(s) as int] == ':',
    decreases s.len(),
{
    if s.len() == 0 || s[0] == ':' {
    } else {
        let t = s.skip(1);
        lemma_first_colon(t);
        assert forall|j: int| 0 <= j < first_colon(s) implies #[trigger] s[j] != ':' by {
            if j > 0 {
                assert(s[j] == t[j - 1]);
            }
        }
        if first_colon(s) < s.len() {
            assert(s[first_colon(s) as int] == t[first_colon(t) as int]);
        }
    }
}

/// The first colon stands at `k` when no colon stands before `k` and one
/// stands at `k`, or `k` is the end.
pub proof fn lemma_first_colon_is(s: Seq<char>, k: int)
    requires
        0 <= k <= s.len(),
        forall|j: int| 0 <= j < k ==> #[trigger] s[j] != ':',
        k < s.len() ==> s[k] == ':',
    ensures
        first_colon(s) == k,
{
    lemma_first_colon(s);
    let p = first_colon(s) as int;
    if p < k {
        assert(s[p] != ':');
    } else if p > k {
        assert(s[k] != ':');
    }
}

/// Finds the first colon.
fn find_colon(s: &str) -> (i: usize)
    ensures
        i == first_colon(s@),
        i <= s@.len(),
{
    let n = s.unicode_len();
    let mut i: usize = 0;
    while i < n
        invariant
            i <= n,
            n == s@.len(),
            forall|j: int| 0 <= j < i ==> #[trigger] s@[j] != ':',
        decreases n - i,
    {
        if s.get_char(i) == ':' {
            proof {
                lemma_first_colon_is(s@, i as int);
            }
            return i;
        }
        i += 1;
    }
    proof {
        lemma_first_colon_is(s@, n as int);
    }
    n
}

/// Whether two texts hold the same characters.
pub(crate) fn same_text(a: &str, b: &str) -> (r: bool)
    ensures
        r == (a@ == b@),
{
    let n = a.unicode_len();
    if b.unicode_len() != n {
        return false;
    }
    let mut i: usize = 0;
    while i < n
        invariant
            i <= n,
            n == a@.len(),
            n == b@.len(),
            forall|j: int| 0 <= j < i ==> a@[j] == b@[j],
        decreases n - i,
    {
        if a.get_char(i) != b.get_char(i) {
            return false;
        }
        i += 1;
    }
    assert(a@ =~= b@);
    true
}

/// Reads the amount and builds the work of the given kind.
fn with_amount(kind: &str, amount: &str, whole: &str) -> (r: Result<Work, WorkParseErr>)
    ensures
        match r {
            Ok(w) => with_amount_spec(kind@, amount@, whole@) == Ok::<Work, ParseFailure>(w)
                && w.valid(),
            Err(e) => with_amount_spec(kind@, amount@, whole@) == Err::<Work, ParseFailure>(e@),
        },
{
    broadcast use NonZeroMicros::lemma_value_of_from_value;

    if same_text(kind, "const") {
        match parse_amount(amount) {
            Ok(v) => Ok(Work::Const(v)),
            Err(e) => Err(WorkParseErr::U64Parse(e)),
        }
    } else if same_text(kind, "poisson") {
        match parse_amount(amount) {
            Ok(v) => match NonZeroMicros::new(v) {
                Some(rate) => Ok(Work::Poisson(rate)),
                None => Err(WorkParseErr::ZeroPoissonValue),
            },
            Err(e) => Err(WorkParseErr::U64Parse(e)),
        }
    } else if same_text(kind, "busytime") || same_text(kind, "bt") {
        match parse_amount(amount) {
            Ok(v) => Ok(Work::BusyTimeConst(v)),
            Err(e) => Err(WorkParseErr::U64Parse(e)),
        }
    } else if same_text(kind, "busywork") || same_text(kind, "bw") {
        match parse_amount(amount) {
            Ok(v) => Ok(Work::BusyWorkConst(v)),
            Err(e) => Err(WorkParseErr::U64Parse(e)),
        }
    } else {
        Err(WorkParseErr::UnknownFmt(whole.to_owned()))
    }
}

impl Work {
    /// A Poisson mean is never zero; the other kinds take any amount.
    pub open spec fn valid(self) -> bool {
        match self {
            Work::Poisson(rate) => rate.value() > 0,
            _ => true,
        }
    }

    /// The canonical text of a work: the long name of its kind (`imm` for
    /// `Immediate`), then, where the kind takes one, a colon and the amount
    /// in its shortest decimal form.
    pub open spec fn text(self) -> Seq<char> {
        match self {
            Work::Immediate => "imm"@,
            Work::Const(amt) => "const:"@ + decimal_text(amt as nat),
            Work::Poisson(rate) => "poisson:"@ + decimal_text(rate.value() as nat),
            Work::Payload => "payload"@,
            Work::BusyTimeConst(amt) => "busytime:"@ + decimal_text(amt as nat),
            Work::BusyWorkConst(amt) => "busywork:"@ + decimal_text(amt as nat),
        }
    }

    /// What performing the work costs: both busy-wait kinds spin for their
    /// amount, a Poisson work for a sampled time, `BusyWorkConst` iterates,
    /// and the rest cost nothing.
    pub open spec fn effort_spec(self) -> Effort {
        match self {
            Work::Immediate => Effort::Nothing,
            Work::Payload => Effort::Nothing,
            Work::Const(amt) => Effort::BusyWait(amt),
            Work::BusyTimeConst(amt) => Effort::BusyWait(amt),
            Work::Poisson(rate) => Effort::PoissonWait(rate),
            Work::BusyWorkConst(amt) => Effort::Iterate(amt),
        }
    }

    /// What performing the work costs.
    pub fn effort(self) -> (e: Effort)
        ensures
            e == self.effort_spec(),
    {
        match self {
            Work::Immediate => Effort::Nothing,
            Work::Payload => Effort::Nothing,
            Work::Const(amt) => Effort::BusyWait(amt),
            Work::BusyTimeConst(amt) => Effort::BusyWait(amt),
            Work::Poisson(rate) => Effort::PoissonWait(rate),
            Work::BusyWorkConst(amt) => Effort::Iterate(amt),
        }
    }

    /// The buffer that answers the work.
    ///
    /// Only `Payload` answers with one: zero bytes, as many as one of the
    /// four payload sizes, chosen at random. Every other kind gives `None`.
    pub fn payload(self) -> (p: Option<Vec<u8>>)
        ensures
            p is Some <==> self is Payload,
            p matches Some(buf) ==> is_payload_size(buf@.len()) && buf@ == Seq::new(
                buf@.len(),
                |i: int| 0u8,
            ),
    {
        match self {
            Work::Payload => {
                let sizes: Vec<usize> = vec![64, 256, 512, 1024];
                let picked = choose_size(sizes.as_slice());
                Some(blank_payload(picked.unwrap()))
            },
            _ => None,
        }
    }

    /// The work that two random draws stand for: `kind` picks the variant,
    /// `amount` fills it where the variant takes one. A `kind` that picks
    /// none of the four variants with an amount gives `Immediate`.
    pub fn from_draw(kind: u64, amount: NonZeroMicros) -> (w: Work)
        ensures
            w.valid(),
            w == match kind {
                1 => Work::Const(amount.value()),
                2 => Work::Poisson(amount),
                3 => Work::BusyTimeConst(amount.value()),
                4 => Work::BusyWorkConst(amount.value()),
                _ => Work::Immediate,
            },
    {
        let amt = amount.get();
        match kind {
            1 => Work::Const(amt),
            2 => Work::Poisson(amount),
            3 => Work::BusyTimeConst(amt),
            4 => Work::BusyWorkConst(amt),
            _ => Work::Immediate,
        }
    }

    /// Reads a work from its text.
    ///
    /// Succeeds exactly on the texts that [`parse_spec`] accepts, with the
    /// work it gives; fails with the error it gives on all others.
    pub fn parse(s: &str) -> (r: Result<Work, WorkParseErr>)
        ensures
            match r {
                Ok(w) => parse_spec(s@) == Ok::<Work, ParseFailure>(w) && w.valid(),
                Err(e) => parse_spec(s@) == Err::<Work, ParseFailure>(e@),
            },
    {
        let n = s.unicode_len();
        let i = find_colon(s);
        if i == n {
            if same_text(s, "immediate") || same_text(s, "imm") {
                Ok(Work::Immediate)
            } else if same_text(s, "payload") {
                Ok(Work::Payload)
            } else {
                Err(WorkParseErr::UnknownFmt(s.to_owned()))
            }
        } else {
            let kind = s.substring_char(0, i);
            let amount = s.substring_char(i + 1, n);
            assert(kind@ == s@.take(i as int));
            assert(amount@ == s@.skip(i + 1));
            if find_colon(amount) < amount.unicode_len() {
                Err(WorkParseErr::UnknownFmt(s.to_owned()))
            } else {
                with_amount(kind, amount, s)
            }
        }
    }

    /// Writes the canonical text of the work.
    pub fn to_string(&self) -> (r: String)
        ensures
            r@ == self.text(),
    {
        match self {
            Work::Immediate => "imm".to_owned(),
            Work::Payload => "payload".to_owned(),
            Work::Const(amt) => {
                let mut out = "const:".to_owned();
                push_decimal(&mut out, *amt);
                out
            },
            Work::Poisson(rate) => {
                let mut out = "poisson:".to_owned();
                push_decimal(&mut out, rate.get());
                out
            },
            Work::BusyTimeConst(amt) => {
                let mut out = "busytime:".to_owned();
                push_decimal(&mut out, *amt);
                out
            },
            Work::BusyWorkConst(amt) => {
                let mut out = "busywork:".to_owned();
                push_decimal(&mut out, *amt);
                out
            },
        }
    }
}

/// A kind's name, a colon and a printed amount split at that colon, and the
/// amount reads back as `amt`.
proof fn lemma_split_kind_amount(kind: Seq<char>, amt: u64)
    requires
        forall|j: int| 0 <= j < kind.len() ==> #[trigger] kind[j] != ':',
    ensures
        ({
            let s = kind + seq![':'] + decimal_text(amt as nat);
            &&& first_colon(s) == kind.len()
            &&& s.take(kind.len() as int) == kind
            &&& s.skip(kind.len() as int + 1) == decimal_text(amt as nat)
            &&& first_colon(decimal_text(amt as nat)) == decimal_text(amt as nat).len()
            &&& parse_amount_spec(decimal_text(amt as nat)) == Ok::<u64, AmountError>(amt)
        }),
{
    let digits = decimal_text(amt as nat);
    let s = kind + seq![':'] + digits;
    lemma_first_colon_is(s, kind.len() as int);
    assert(s.take(kind.len() as int) =~= kind);
    assert(s.skip(kind.len() as int + 1) =~= digits);
    crate::decimal::lemma_decimal_text(amt as nat);
    assert forall|j: int| 0 <= j < digits.len() implies #[trigger] digits[j] != ':' by {
        assert(crate::decimal::is_digit(digits[j]));
    }
    lemma_first_colon_is(digits, digits.len() as int);
    lemma_print_then_parse(amt);
}

/// Reading the canonical text of a work gives the work back.
pub proof fn lemma_parse_of_text(w: Work)
    requires
        w.valid(),
    ensures
        parse_spec(w.text()) == Ok::<Work, ParseFailure>(w),
{
    broadcast use NonZeroMicros::lemma_from_value_of_value;

    reveal_strlit("immediate");
    reveal_strlit("imm");
    reveal_strlit("payload");
    reveal_strlit("const");
    reveal_strlit("poisson");
    reveal_strlit("busytime");
    reveal_strlit("bt");
    reveal_strlit("busywork");
    reveal_strlit("bw");
    reveal_strlit("const:");
    reveal_strlit("poisson:");
    reveal_strlit("busytime:");
    reveal_strlit("busywork:");
    let s = w.text();
    match w {
        Work::Immediate => {
            lemma_first_colon_is(s, 3);
        },
        Work::Payload => {
            lemma_first_colon_is(s, 7);
        },
        Work::Const(amt) => {
            lemma_split_kind_amount("const"@, amt);
            assert("const:"@ =~= "const"@ + seq![':']);
        },
        Work::Poisson(rate) => {
            lemma_split_kind_amount("poisson"@, rate.value());
            assert("poisson:"@ =~= "poisson"@ + seq![':']);
        },
        Work::BusyTimeConst(amt) => {
            lemma_split_kind_amount("busytime"@, amt);
            assert("busytime:"@ =~= "busytime"@ + seq![':']);
        },
        Work::BusyWorkConst(amt) => {
            lemma_split_kind_amount("busywork"@, amt);
            assert("busywork:"@ =~= "busywork"@ + seq![':']);
            assert("busywork"@[4] != "busytime"@[4]);
        },
    }
}

impl std::str::FromStr for Work {
    type Err = WorkParseErr;

    /// Reads a work from its text, as [`Work::parse`] does: it succeeds
    /// exactly on the texts that [`parse_spec`] accepts, with the work it
    /// gives, and fails with the error it gives on all others.
    fn from_str(s: &str) -> (r: Result<Work, WorkParseErr>)
        ensures
            match r {
                Ok(w) => parse_spec(s@) == Ok::<Work, ParseFailure>(w) && w.valid(),
                Err(e) => parse_spec(s@) == Err::<Work, ParseFailure>(e@),
            },
    {
        Work::parse(s)
    }
}

} // verus!

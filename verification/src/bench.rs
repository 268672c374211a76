//! Timing a closure and reporting the result.
use vstd::prelude::*;
use vstd::string::StringExecFns;

verus! {

/// `std::time::Instant`, a reading of the monotonic clock. Nothing is known
/// of what a value of it holds.
#[verifier::external_type_specification]
#[verifier::external_body]
pub struct ExInstant(std::time::Instant);

/// `Instant::now` reads the clock. Nothing is claimed of the reading.
pub assume_specification[ std::time::Instant::now ]() -> std::time::Instant;

/// `Instant::elapsed` gives the time that has passed since the reading was
/// taken. Nothing is claimed of that time.
pub assume_specification[ std::time::Instant::elapsed ](
    clock: &std::time::Instant,
) -> core::time::Duration;

/// `Duration::as_nanos` gives the whole duration in nanoseconds. Nothing is
/// claimed of the number.
pub assume_specification[ core::time::Duration::as_nanos ](span: &core::time::Duration) -> u128;

/// What `num_format` makes of a number under its locale `en`: the decimal
/// digits, grouped in threes from the right by commas.
pub uninterp spec fn en_formatted(n: u128) -> Seq<char>;

/// Calls `ToFormattedString::to_formatted_string` of `num_format` on `n` with
/// `Locale::en`. The contract claims only that the text depends on nothing
/// but `n`, by giving it a name.
#[verifier::external_body]
fn to_formatted_string(n: u128) -> (text: String)
    ensures
        text@ == en_formatted(n),
{
    num_format::ToFormattedString::to_formatted_string(&n, &num_format::Locale::en)
}

/// The report on three measurements that were taken under the name `alias`
/// and are given as texts.
pub open spec fn rendered(alias: Seq<char>, r1: Seq<char>, r2: Seq<char>, r3: Seq<char>) -> Seq<
    char,
> {
    "Results for "@ + alias + "\n["@ + r1 + "ns, "@ + r2 + "ns, "@ + r3 + "ns]\n"@
}

/// The report on three measurements in nanoseconds that were taken under the
/// name `alias`.
pub open spec fn reported(alias: Seq<char>, r1: u128, r2: u128, r3: u128) -> Seq<char> {
    rendered(alias, en_formatted(r1), en_formatted(r2), en_formatted(r3))
}

/// Measures how long a closure takes when it is called a fixed number of
/// times in a row.
pub struct MyBencher(usize);

impl MyBencher {
    /// The number of calls that make up one measurement.
    pub closed spec fn size(&self) -> usize {
        self.0
    }

    /// A bencher whose measurements are of `size` calls each.
    pub fn new(size: usize) -> (bencher: Self)
        ensures
            bencher.size() == size,
    {
        MyBencher(size)
    }

    /// Measures `f` three times and returns the report on the three
    /// measurements, for the caller to print. What the clock says decides the
    /// numbers; the report is made of them as [`MyBencher::report`] says.
    pub fn bench<F: Fn()>(&self, alias: &str, f: F) -> (text: String)
        requires
            f.requires(()),
        ensures
            exists|r1: u128, r2: u128, r3: u128| text@ == reported(alias@, r1, r2, r3),
    {
        let r1 = self.measure(&f);
        let r2 = self.measure(&f);
        let r3 = self.measure(&f);
        Self::report(alias, r1, r2, r3)
    }

    /// The report on three measurements in nanoseconds: each number in the
    /// format of the locale `en`, in the frame that [`MyBencher::render`]
    /// gives.
    pub fn report(alias: &str, r1: u128, r2: u128, r3: u128) -> (text: String)
        ensures
            text@ == reported(alias@, r1, r2, r3),
    {
        let t1 = to_formatted_string(r1);
        let t2 = to_formatted_string(r2);
        let t3 = to_formatted_string(r3);
        Self::render(alias, t1.as_str(), t2.as_str(), t3.as_str())
    }

    /// Puts three measurements, given as texts, into the frame of a report:
    /// a line that names `alias`, then a line with the three texts in square
    /// brackets, each followed by `ns`.
    pub fn render(alias: &str, r1: &str, r2: &str, r3: &str) -> (text: String)
        ensures
            text@ == rendered(alias@, r1@, r2@, r3@),
    {
        let mut text = String::from_str("Results for ");
        text.append(alias);
        text.append("\n[");
        text.append(r1);
        text.append("ns, ");
        text.append(r2);
        text.append("ns, ");
        text.append(r3);
        text.append("ns]\n");
        text
    }

    /// The time that `size` calls of `f` take, in nanoseconds.
    fn measure<F: Fn()>(&self, f: &F) -> u128
        requires
            f.requires(()),
    {
        let clock = std::time::Instant::now();
        self.call(f);
        clock.elapsed().as_nanos()
    }

    /// Calls `f` `size` times.
    fn call<F: Fn()>(&self, f: &F)
        requires
            f.requires(()),
    {
        let mut done: usize = 0;
        while done < self.0
            invariant
                f.requires(()),
            decreases self.0 - done,
        {
            f();
            done = done + 1;
        }
    }
}

} // verus!

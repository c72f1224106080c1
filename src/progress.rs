use vstd::prelude::*;

verus! {

/// The decimal digits of `n` with a comma every three digits from the right.
pub uninterp spec fn comma_grouped(n: u64) -> Seq<char>;

/// Relies on `thousands::Separable::separate_with_commas`, which renders the
/// number's decimal digits with a comma every three from the right; the text
/// depends on the number alone.
#[verifier::external_body]
fn separate_with_commas(n: u64) -> (r: String)
    ensures
        r@ == comma_grouped(n),
{
    thousands::Separable::separate_with_commas(&n)
}

/// The operator-facing progress line for a count already rendered as text.
pub open spec fn progress_text(count_text: Seq<char>) -> Seq<char> {
    "Processing message "@ + count_text
}

/// Builds the progress line around an already rendered count.
pub fn progress_line(count_text: &str) -> (r: String)
    ensures
        r@ == progress_text(count_text@),
{
    let mut out = String::from_str("Processing message ");
    out.append(count_text);
    out
}

/// The progress line for `count` extracted frames, the count grouped by commas.
pub fn progress_message(count: u64) -> (r: String)
    ensures
        r@ == progress_text(comma_grouped(count)),
{
    let grouped = separate_with_commas(count);
    progress_line(grouped.as_str())
}

} // verus!

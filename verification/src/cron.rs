use vstd::prelude::*;
use vstd::string::StringSliceAdditionalSpecFns;

verus! {

/// How many whitespace-separated fields a cron expression must have
/// (second, minute, hour, day-of-month, month, day-of-week).
pub const CRON_FIELDS: usize = 6;

/// An ASCII whitespace byte, the separators recognised between cron fields.
pub open spec fn is_space_byte(b: u8) -> bool {
    b == 32 || b == 9 || b == 10 || b == 13 || b == 11 || b == 12
}

/// A field starts at index `i` when the byte there is not whitespace and is
/// either the first byte or preceded by whitespace.
pub open spec fn field_starts_at(s: Seq<u8>, i: int) -> bool {
    &&& !is_space_byte(s[i])
    &&& (i == 0 || is_space_byte(s[i - 1]))
}

/// Number of fields that start strictly before index `n`.
pub open spec fn fields_upto(s: Seq<u8>, n: int) -> int
    decreases n,
{
    if n <= 0 {
        0
    } else {
        fields_upto(s, n - 1) + if field_starts_at(s, n - 1) {
            1int
        } else {
            0int
        }
    }
}

/// Number of maximal runs of non-whitespace bytes in `s`: what splitting on
/// whitespace and discarding empty pieces would yield.
pub open spec fn field_count(s: Seq<u8>) -> int {
    fields_upto(s, s.len() as int)
}

/// The prefix of length `n` holds at most `n` field starts.
pub proof fn lemma_fields_upto_bound(s: Seq<u8>, n: int)
    requires
        0 <= n,
    ensures
        0 <= fields_upto(s, n) <= n,
    decreases n,
{
    if n > 0 {
        lemma_fields_upto_bound(s, n - 1);
    }
}

/// Counts the whitespace-separated fields of `s`, over its UTF-8 bytes.
pub fn count_fields(s: &str) -> (n: usize)
    ensures
        n == field_count(s.spec_bytes()),
{
    let bytes = s.as_bytes();
    let mut i: usize = 0;
    let mut n: usize = 0;
    proof {
        lemma_fields_upto_bound(bytes@, bytes@.len() as int);
    }
    while i < bytes.len()
        invariant
            0 <= i <= bytes@.len(),
            n == fields_upto(bytes@, i as int),
            n <= i,
        decreases bytes@.len() - i,
    {
        let b = bytes[i];
        let space = b == 32 || b == 9 || b == 10 || b == 13 || b == 11 || b == 12;
        let prev_space = if i == 0 {
            true
        } else {
            let p = bytes[i - 1];
            p == 32 || p == 9 || p == 10 || p == 13 || p == 11 || p == 12
        };
        if !space && prev_space {
            n = n + 1;
        }
        i = i + 1;
    }
    n
}

/// A cron expression is accepted by the scheduler exactly when it has the
/// required number of fields.
pub open spec fn cron_shape_ok(s: Seq<u8>) -> bool {
    field_count(s) == CRON_FIELDS
}

/// Checks the field count of a cron expression.
pub fn cron_expression_ok(s: &str) -> (r: bool)
    ensures
        r <==> cron_shape_ok(s.spec_bytes()),
{
    count_fields(s) == CRON_FIELDS
}

} // verus!

//! Character-level helpers: appending to a string, trimming line endings.

use vstd::prelude::*;

verus! {

/// Relies on `String::push` of std: the character is added at the end.
#[verifier::external_body]
pub(crate) fn push_char(s: &mut String, c: char)
    ensures
        final(s)@ == old(s)@.push(c),
{
    s.push(c);
}

/// The characters of `s` with every trailing `'\r'` and `'\n'` removed.
pub open spec fn trim_end_newlines(s: Seq<char>) -> Seq<char>
    decreases s.len(),
{
    if s.len() > 0 && (s.last() == '\r' || s.last() == '\n') {
        trim_end_newlines(s.drop_last())
    } else {
        s
    }
}

/// The message without its trailing line endings: a message that ends in
/// newlines has no body, rather than an empty one.
pub fn trim_trailing_newlines(message: &str) -> (r: &str)
    ensures
        r@ == trim_end_newlines(message@),
{
    let mut n: usize = message.unicode_len();
    assert(message@.subrange(0, n as int) =~= message@);
    while n > 0
        invariant
            n <= message@.len(),
            trim_end_newlines(message@) == trim_end_newlines(message@.subrange(0, n as int)),
        ensures
            n <= message@.len(),
            trim_end_newlines(message@) == trim_end_newlines(message@.subrange(0, n as int)),
            n == 0 || (message@[n - 1] != '\r' && message@[n - 1] != '\n'),
        decreases n,
    {
        let c = message.get_char(n - 1);
        if c != '\r' && c != '\n' {
            break;
        }
        proof {
            assert(message@.subrange(0, n as int).drop_last() =~= message@.subrange(
                0,
                n - 1,
            ));
        }
        n = n - 1;
    }
    proof {
        let t = message@.subrange(0, n as int);
        if n > 0 {
            assert(t.last() == message@[n - 1]);
        }
        assert(trim_end_newlines(t) == t);
    }
    message.substring_char(0, n)
}

} // verus!

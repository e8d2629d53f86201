use vstd::prelude::*;

use crate::constants::is_digipin_symbol;
use vstd::string::StrSliceExecFns;

verus! {

/// ASCII upper-casing of a single character: 'a' through 'z' move down
/// 32 code points; every other character is unchanged.
pub open spec fn spec_to_ascii_upper(c: char) -> char {
    if 'a' <= c && c <= 'z' {
        (((c as u32) - 32) as u8) as char
    } else {
        c
    }
}

/// The canonical form of a raw code: every '-' separator removed, then
/// every remaining character upper-cased. Purely textual; no length or
/// alphabet checking.
pub open spec fn spec_normalize(code: Seq<char>) -> Seq<char>
    decreases code.len(),
{
    if code.len() == 0 {
        Seq::empty()
    } else {
        let front = spec_normalize(code.drop_last());
        if code.last() == '-' {
            front
        } else {
            front.push(spec_to_ascii_upper(code.last()))
        }
    }
}

/// A code made only of alphabet symbols is already canonical: the
/// symbols are upper-case letters and digits, and none is a separator.
pub proof fn lemma_normalize_canonical(code: Seq<char>)
    requires
        forall|i: int| 0 <= i < code.len() ==> is_digipin_symbol(#[trigger] code[i]),
    ensures
        spec_normalize(code) == code,
    decreases code.len(),
{
    if code.len() == 0 {
        assert(spec_normalize(code) =~= code);
    } else {
        lemma_normalize_canonical(code.drop_last());
        assert(is_digipin_symbol(code.last()));
        assert(spec_normalize(code) =~= code);
    }
}

/// Relies on String::push: appends the given character to the end of
/// the string.
#[verifier::external_body]
pub(crate) fn push_char(s: &mut String, c: char)
    ensures
        final(s)@ == old(s)@.push(c),
{
    s.push(c);
}

/// ASCII upper-casing of a single character.
fn to_ascii_upper(c: char) -> (r: char)
    ensures
        r == spec_to_ascii_upper(c),
{
    if 'a' <= c && c <= 'z' {
        let code: u32 = c as u32;
        ((code - 32) as u8) as char
    } else {
        c
    }
}

/// Normalizes a DIGIPIN.
///
/// # Rules
/// - Removes '-' separators
/// - Converts to uppercase
///
/// # Arguments
/// - `digipin`: The DIGIPIN string to normalize.
///
/// # Returns
/// - A normalized DIGIPIN string.
pub fn normalize(digipin: &str) -> (r: String)
    ensures
        r@ == spec_normalize(digipin@),
{
    let len = digipin.unicode_len();
    let mut normalized = String::new();
    let mut i: usize = 0;
    while i < len
        invariant
            i <= len,
            len == digipin@.len(),
            normalized@ == spec_normalize(digipin@.take(i as int)),
        decreases len - i,
    {
        let c = digipin.get_char(i);
        if c != '-' {
            let upper = to_ascii_upper(c);
            push_char(&mut normalized, upper);
        }
        proof {
            assert(digipin@.take(i + 1).drop_last() =~= digipin@.take(i as int));
            assert(digipin@.take(i + 1).last() == digipin@[i as int]);
        }
        i = i + 1;
    }
    proof {
        assert(digipin@.take(len as int) =~= digipin@);
    }
    normalized
}

} // verus!
